//! Projecting a stored position into a holding at the current price.
use vstd::prelude::*;
use crate::decimal::{Dec, sum_of, difference_of, quotient_of, product_of, rounded_of};
use crate::models::{Asset, Transaction, TransactionType, one, text_is};

verus! {

/// A position at the current price, with its gains in the base currency.
#[derive(Clone, Debug)]
pub struct Holding {
    pub asset: Asset,
    pub quantity: Dec,
    pub price: Dec,
    pub market_value: Dec,
    pub cost_per_share: Dec,
    pub total_cost: Dec,
    pub unrealized_gain: Dec,
    pub unrealized_gain_percent: Dec,
    pub realized_gain: Dec,
    pub dividends_collected: Dec,
    pub total_gain: Dec,
}

pub open spec fn hundred() -> Dec {
    Dec { mantissa: 100, scale: 0 }
}

/// The figures of a holding: price in the base currency
/// (`price * (1 / exchange_rate)`), market value rounded to a whole number,
/// cost per share to four places, unrealized gain and its percentage of the
/// cost to two places, and the total gain.
pub open spec fn holding_figures(
    quantity: Dec,
    last_price: Dec,
    exchange_rate: Dec,
    total_cost: Dec,
    realized_gain: Dec,
    dividends_collected: Dec,
) -> Option<(Dec, Dec, Dec, Dec, Dec, Dec)> {
    let cost_per_share = if quantity.units() != 0 {
        match quotient_of(total_cost, quantity) {
            Some(c) => Some(rounded_of(c, 4)),
            None => None,
        }
    } else {
        Some(Dec::spec_zero())
    };
    match (cost_per_share, quotient_of(one(), exchange_rate)) {
        (Some(cps), Some(inv)) => match product_of(last_price, inv) {
            None => None,
            Some(price) => match product_of(price, quantity) {
                None => None,
                Some(v) => {
                    let value = rounded_of(v, 0);
                    match difference_of(value, total_cost) {
                        None => None,
                        Some(unrealized) => {
                            let percent = if total_cost.units() != 0 {
                                match quotient_of(unrealized, total_cost) {
                                    None => None,
                                    Some(f) => match product_of(f, hundred()) {
                                        None => None,
                                        Some(p) => Some(rounded_of(p, 2)),
                                    },
                                }
                            } else {
                                Some(Dec::spec_zero())
                            };
                            match percent {
                                None => None,
                                Some(pct) => match sum_of(unrealized, realized_gain) {
                                    None => None,
                                    Some(g) => match sum_of(g, dividends_collected) {
                                        None => None,
                                        Some(total) => Some((price, value, cps, unrealized, pct, total)),
                                    },
                                },
                            }
                        },
                    }
                },
            },
        },
        _ => None,
    }
}

impl Holding {
    /// Projects a position; `None` for a zero exchange rate or where a value
    /// leaves the decimal range.
    pub fn project(
        asset: Asset,
        quantity: Dec,
        last_price: Dec,
        exchange_rate: Dec,
        total_cost: Dec,
        realized_gain: Dec,
        dividends_collected: Dec,
    ) -> (r: Option<Holding>)
        requires
            quantity.wf(),
            last_price.wf(),
            exchange_rate.wf(),
            total_cost.wf(),
            realized_gain.wf(),
            dividends_collected.wf(),
        ensures
            r is None <==> holding_figures(quantity, last_price, exchange_rate, total_cost, realized_gain, dividends_collected) is None,
            r matches Some(h) ==> {
                let f = holding_figures(quantity, last_price, exchange_rate, total_cost, realized_gain, dividends_collected)->Some_0;
                &&& h.asset == asset
                &&& h.quantity == quantity
                &&& h.total_cost == total_cost
                &&& h.realized_gain == realized_gain
                &&& h.dividends_collected == dividends_collected
                &&& (h.price, h.market_value, h.cost_per_share, h.unrealized_gain, h.unrealized_gain_percent, h.total_gain) == f
            },
    {
        let cost_per_share = if !quantity.is_zero() {
            match total_cost.checked_div(quantity) {
                Some(c) => c.round_dp(4),
                None => return None,
            }
        } else {
            Dec::zero()
        };
        let inv = match Dec::from_parts(1, 0).unwrap().checked_div(exchange_rate) {
            Some(x) => x,
            None => return None,
        };
        let price = match last_price.checked_mul(inv) {
            Some(x) => x,
            None => return None,
        };
        let market_value = match price.checked_mul(quantity) {
            Some(v) => v.round_dp(0),
            None => return None,
        };
        let unrealized_gain = match market_value.checked_sub(total_cost) {
            Some(x) => x,
            None => return None,
        };
        let unrealized_gain_percent = if !total_cost.is_zero() {
            match unrealized_gain.checked_div(total_cost) {
                Some(f) => match f.checked_mul(Dec::from_parts(100, 0).unwrap()) {
                    Some(p) => p.round_dp(2),
                    None => return None,
                },
                None => return None,
            }
        } else {
            Dec::zero()
        };
        let g = match unrealized_gain.checked_add(realized_gain) {
            Some(x) => x,
            None => return None,
        };
        let total_gain = match g.checked_add(dividends_collected) {
            Some(x) => x,
            None => return None,
        };
        Some(
            Holding {
                asset,
                quantity,
                price,
                market_value,
                cost_per_share,
                total_cost,
                unrealized_gain,
                unrealized_gain_percent,
                realized_gain,
                dividends_collected,
                total_gain,
            },
        )
    }
}

/// What the stored transactions of one ticker and broker add up to: the
/// position state and exchange rate of the latest buy or sell, and the
/// realized gains and dividends of all of them.
#[derive(Clone, Copy, Debug)]
pub struct PositionSummary {
    pub cumulative_units: Dec,
    pub cumulative_cost: Dec,
    pub exchange_rate: Dec,
    pub realized_gains: Dec,
    pub dividends_collected: Dec,
}

pub open spec fn of_group(t: Transaction, symbol: Seq<char>, broker: Seq<char>) -> bool {
    t.ticker.symbol@ == symbol && t.broker@ == broker
}

/// The running summary over a sequence of transactions: the latest trade
/// with a position state (if any), and the sums of the gains (`None` where
/// a sum does not fit).
pub open spec fn summary_of(ts: Seq<Transaction>, symbol: Seq<char>, broker: Seq<char>) -> Option<
    (Option<(Dec, Dec, Dec)>, Dec, Dec),
>
    decreases ts.len(),
{
    if ts.len() == 0 {
        Some((None, Dec::spec_zero(), Dec::spec_zero()))
    } else {
        match summary_of(ts.drop_last(), symbol, broker) {
            None => None,
            Some((latest, realized, dividends)) => {
                let t = ts.last();
                if !of_group(t, symbol, broker) {
                    Some((latest, realized, dividends))
                } else {
                    let latest2 = if (t.transaction_type == TransactionType::Buy || t.transaction_type
                        == TransactionType::Sell) && t.position_state is Some {
                        let ps = t.position_state->Some_0;
                        Some((ps.cumulative_units, ps.cumulative_cost, t.exchange_rate))
                    } else {
                        latest
                    };
                    match t.transaction_gains {
                        None => Some((latest2, realized, dividends)),
                        Some(g) => match (sum_of(realized, g.realized_gains), sum_of(dividends, g.dividends_collected)) {
                            (Some(r), Some(d)) => Some((latest2, r, d)),
                            _ => None,
                        },
                    }
                }
            },
        }
    }
}

/// The decimals of a stored transaction are values of the type.
pub open spec fn stored_wf(t: Transaction) -> bool {
    &&& t.exchange_rate.wf()
    &&& t.transaction_gains matches Some(g) ==> g.realized_gains.wf() && g.dividends_collected.wf()
    &&& t.position_state matches Some(p) ==> p.cumulative_units.wf() && p.cumulative_cost.wf()
}

/// A sum of gains left the range of the decimal type.
#[derive(Clone, Copy, Debug, PartialEq, Eq, Structural)]
pub struct GainsOverflow;

/// The summary of one ticker and broker over the stored transactions, in
/// their order; `Ok(None)` where there is no trade with a position state.
pub fn summarize_position(history: &Vec<Transaction>, symbol: &str, broker: &str) -> (r: Result<Option<PositionSummary>, GainsOverflow>)
    requires
        forall|i: int| 0 <= i < history@.len() ==> stored_wf(#[trigger] history@[i]),
    ensures
        r is Err <==> summary_of(history@, symbol@, broker@) is None,
        r matches Ok(Some(s)) ==> summary_of(history@, symbol@, broker@) == Some((
            Some((s.cumulative_units, s.cumulative_cost, s.exchange_rate)),
            s.realized_gains,
            s.dividends_collected,
        )),
        r matches Ok(None) ==> summary_of(history@, symbol@, broker@) matches Some((None, _, _)),
        r matches Ok(Some(s)) ==> s.cumulative_units.wf() && s.cumulative_cost.wf() && s.exchange_rate.wf()
            && s.realized_gains.wf() && s.dividends_collected.wf(),
{
    let mut latest: Option<(Dec, Dec, Dec)> = None;
    let mut realized = Dec::zero();
    let mut dividends = Dec::zero();
    let mut i: usize = 0;
    proof {
        assert(history@.take(0) =~= Seq::<Transaction>::empty());
    }
    while i < history.len()
        invariant
            forall|j: int| 0 <= j < history@.len() ==> stored_wf(#[trigger] history@[j]),
            0 <= i <= history@.len(),
            realized.wf(),
            dividends.wf(),
            summary_of(history@.take(i as int), symbol@, broker@) == Some((latest, realized, dividends)),
            latest matches Some((u, c, x)) ==> u.wf() && c.wf() && x.wf(),
        decreases history.len() - i,
    {
        let t = &history[i];
        proof {
            assert(history@.take(i + 1).drop_last() =~= history@.take(i as int));
            assert(history@.take(i + 1).last() == history@[i as int]);
            assert(stored_wf(history@[i as int]));
        }
        if text_is(t.ticker.symbol.as_str(), symbol) && text_is(t.broker.as_str(), broker) {
            if t.transaction_type == TransactionType::Buy || t.transaction_type == TransactionType::Sell {
                match &t.position_state {
                    Some(ps) => {
                        latest = Some((ps.cumulative_units, ps.cumulative_cost, t.exchange_rate));
                    },
                    None => {},
                }
            }
            match &t.transaction_gains {
                None => {},
                Some(g) => {
                    let r = realized.checked_add(g.realized_gains);
                    let d = dividends.checked_add(g.dividends_collected);
                    match (r, d) {
                        (Some(r), Some(d)) => {
                            realized = r;
                            dividends = d;
                        },
                        _ => {
                            proof {
                                lemma_summary_none_stays(history@, symbol@, broker@, i + 1, history@.len() as int);
                                assert(history@.take(history@.len() as int) =~= history@);
                            }
                            return Err(GainsOverflow);
                        },
                    }
                },
            }
        }
        i = i + 1;
    }
    proof {
        assert(history@.take(history@.len() as int) =~= history@);
    }
    match latest {
        Some((units, cost, rate)) => Ok(Some(
            PositionSummary {
                cumulative_units: units,
                cumulative_cost: cost,
                exchange_rate: rate,
                realized_gains: realized,
                dividends_collected: dividends,
            },
        )),
        None => Ok(None),
    }
}

pub proof fn lemma_summary_none_stays(ts: Seq<Transaction>, symbol: Seq<char>, broker: Seq<char>, j: int, k: int)
    requires
        0 <= j <= k <= ts.len(),
        summary_of(ts.take(j), symbol, broker) is None,
    ensures
        summary_of(ts.take(k), symbol, broker) is None,
    decreases k - j,
{
    if j < k {
        lemma_summary_none_stays(ts, symbol, broker, j, k - 1);
        assert(ts.take(k).drop_last() =~= ts.take(k - 1));
    }
}

/// What the store and a provider give for one ticker and broker: the asset,
/// the ticker's last price and the current rate of its currency.
#[derive(Clone, Debug)]
pub struct PositionInput {
    pub symbol: String,
    pub broker: String,
    pub asset: Asset,
    pub last_price: Dec,
    pub exchange_rate: Dec,
}

impl PositionInput {
    pub open spec fn wf(&self) -> bool {
        self.last_price.wf() && self.exchange_rate.wf()
    }
}

/// The holding of one ticker and broker: none where no units are held (or
/// there is no trade), an error where a value leaves the decimal range.
pub open spec fn projected(history: Seq<Transaction>, p: PositionInput) -> Option<Result<Holding, ()>> {
    match summary_of(history, p.symbol@, p.broker@) {
        None => Some(Err(())),
        Some((None, _, _)) => None,
        Some((Some((units, cost, _)), realized, dividends)) => if units.units() > 0 {
            match holding_figures(units, p.last_price, p.exchange_rate, cost, realized, dividends) {
                None => Some(Err(())),
                Some((price, value, cps, unrealized, pct, total)) => Some(Ok(
                    Holding {
                        asset: p.asset,
                        quantity: units,
                        price,
                        market_value: value,
                        cost_per_share: cps,
                        total_cost: cost,
                        unrealized_gain: unrealized,
                        unrealized_gain_percent: pct,
                        realized_gain: realized,
                        dividends_collected: dividends,
                        total_gain: total,
                    },
                )),
            }
        } else {
            None
        },
    }
}

/// The holdings of a list of tickers and brokers, in order, and the symbol
/// and broker of each that could not be projected.
pub open spec fn holdings_of(history: Seq<Transaction>, ps: Seq<PositionInput>) -> (Seq<Holding>, Seq<(String, String)>)
    decreases ps.len(),
{
    if ps.len() == 0 {
        (Seq::empty(), Seq::empty())
    } else {
        let (hs, fs) = holdings_of(history, ps.drop_last());
        let p = ps.last();
        match projected(history, p) {
            None => (hs, fs),
            Some(Ok(h)) => (hs.push(h), fs),
            Some(Err(_)) => (hs, fs.push((p.symbol, p.broker))),
        }
    }
}

/// The current holdings: one for each ticker and broker with units held,
/// at the given price and rate.
pub struct HoldingsProjection {
    pub holdings: Vec<Holding>,
    /// Symbol and broker of each position whose figures left the decimal range.
    pub failures: Vec<(String, String)>,
}

pub fn project_holdings(history: &Vec<Transaction>, positions: &Vec<PositionInput>) -> (r: HoldingsProjection)
    requires
        forall|i: int| 0 <= i < history@.len() ==> stored_wf(#[trigger] history@[i]),
        forall|i: int| 0 <= i < positions@.len() ==> (#[trigger] positions@[i]).wf(),
    ensures
        (r.holdings@, r.failures@) == holdings_of(history@, positions@),
{
    let mut holdings: Vec<Holding> = Vec::new();
    let mut failures: Vec<(String, String)> = Vec::new();
    let mut i: usize = 0;
    while i < positions.len()
        invariant
            forall|j: int| 0 <= j < history@.len() ==> stored_wf(#[trigger] history@[j]),
            forall|j: int| 0 <= j < positions@.len() ==> (#[trigger] positions@[j]).wf(),
            0 <= i <= positions@.len(),
            (holdings@, failures@) == holdings_of(history@, positions@.take(i as int)),
        decreases positions.len() - i,
    {
        let p = &positions[i];
        proof {
            assert(positions@.take(i + 1).drop_last() =~= positions@.take(i as int));
            assert(positions@.take(i + 1).last() == positions@[i as int]);
            assert(p.wf());
        }
        match summarize_position(history, p.symbol.as_str(), p.broker.as_str()) {
            Err(_) => {
                failures.push((p.symbol.clone(), p.broker.clone()));
            },
            Ok(None) => {},
            Ok(Some(s)) => {
                if s.cumulative_units.is_positive() {
                    match Holding::project(
                        p.asset.copied(),
                        s.cumulative_units,
                        p.last_price,
                        p.exchange_rate,
                        s.cumulative_cost,
                        s.realized_gains,
                        s.dividends_collected,
                    ) {
                        Some(h) => {
                            holdings.push(h);
                        },
                        None => {
                            failures.push((p.symbol.clone(), p.broker.clone()));
                        },
                    }
                }
            },
        }
        i = i + 1;
    }
    proof {
        assert(positions@.take(positions@.len() as int) =~= positions@);
    }
    HoldingsProjection { holdings, failures }
}

} // verus!
