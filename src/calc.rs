//! FIFO lot replay and the gains of a transaction.
use vstd::prelude::*;
use crate::decimal::{Dec, sum_of, exact_sum, quotient_of, rounded_of, lemma_sum_units, lemma_pow10_positive};
use crate::models::{PositionState, Transaction, TransactionGains, TransactionType, amount_of};
use crate::decimal::difference_of;

verus! {

/// Why a position state cannot be computed.
#[derive(Clone, Copy, Debug, PartialEq, Eq, Structural)]
pub enum AccountingError {
    /// The two sequences differ in length.
    LengthMismatch { amounts: usize, quantities: usize },
    /// There is nothing to replay.
    Empty,
    /// The quantity at this index is zero.
    ZeroQuantity { index: usize },
    /// A value left the range of the decimal type.
    Overflow,
}

pub open spec fn all_wf(s: Seq<Dec>) -> bool {
    forall|i: int| 0 <= i < s.len() ==> #[trigger] s[i].wf()
}

/// A sum in the model: exact (where it fits) when `exact` holds, else as
/// rust_decimal computes it.
pub open spec fn add_in(exact: bool, a: Dec, b: Dec) -> Option<Dec> {
    if exact {
        exact_sum(a, b)
    } else {
        sum_of(a, b)
    }
}

/// `start` plus the elements of `s`, added from the front; `None` where a
/// partial sum fails.
pub open spec fn sum_seq(exact: bool, start: Dec, s: Seq<Dec>) -> Option<Dec>
    decreases s.len(),
{
    if s.len() == 0 {
        Some(start)
    } else {
        match sum_seq(exact, start, s.drop_last()) {
            Some(t) => add_in(exact, t, s.last()),
            None => None,
        }
    }
}

/// `n` copies of one unit cost.
pub open spec fn lots(cost: Dec, n: nat) -> Seq<Dec> {
    Seq::new(n, |i: int| cost)
}

/// The queue of unit costs, units held and cost sold after one more element
/// whose unit cost is `cost`: a buy queues one copy of the cost per whole
/// unit, a sell takes as many from the front as it has whole units (as far
/// as the queue goes); then the queue is drained where the units held round
/// to zero at four places. `None` where a value leaves the decimal range.
pub open spec fn fifo_step_with(
    exact: bool,
    queue: Seq<Dec>,
    units: Dec,
    amount: Dec,
    quantity: Dec,
    cost: Dec,
) -> Option<(Seq<Dec>, Dec, Dec)> {
    match add_in(exact, units, quantity) {
        None => None,
        Some(units2) => {
            let n = quantity.floor_abs();
            let k = if n <= queue.len() { n } else { queue.len() as int };
            let moved: Option<(Seq<Dec>, Dec)> = if n > i64::MAX {
                None
            } else if amount.units() < 0 {
                Some((queue + lots(cost, n as nat), Dec::spec_zero()))
            } else if amount.units() > 0 {
                match sum_seq(exact, Dec::spec_zero(), queue.take(k)) {
                    None => None,
                    Some(sold) => Some((queue.skip(k), sold)),
                }
            } else {
                Some((queue, Dec::spec_zero()))
            };
            match moved {
                None => None,
                Some((q2, sold)) => {
                    let rest = if rounded_of(units2, 4).units() == 0 {
                        Seq::empty()
                    } else {
                        q2
                    };
                    Some((rest, units2, sold))
                },
            }
        },
    }
}

/// One more element, its unit cost being rust_decimal's `amount / quantity`.
pub open spec fn fifo_step(exact: bool, queue: Seq<Dec>, units: Dec, amount: Dec, quantity: Dec) -> Option<
    (Seq<Dec>, Dec, Dec),
> {
    match quotient_of(amount, quantity) {
        None => None,
        Some(cost) => fifo_step_with(exact, queue, units, amount, quantity, cost),
    }
}

/// The replay of the first `n` elements: queue, units held, cost sold by the
/// last of them.
pub open spec fn fifo_replay(exact: bool, amounts: Seq<Dec>, quantities: Seq<Dec>, n: nat) -> Result<
    (Seq<Dec>, Dec, Dec),
    AccountingError,
>
    decreases n,
{
    if n == 0 {
        Ok((Seq::empty(), Dec::spec_zero(), Dec::spec_zero()))
    } else {
        match fifo_replay(exact, amounts, quantities, (n - 1) as nat) {
            Err(e) => Err(e),
            Ok((queue, units, sold)) => {
                let i = n - 1;
                if quantities[i].units() == 0 {
                    Err(AccountingError::ZeroQuantity { index: i as usize })
                } else {
                    match fifo_step(exact, queue, units, amounts[i], quantities[i]) {
                        None => Err(AccountingError::Overflow),
                        Some(t) => Ok(t),
                    }
                }
            },
        }
    }
}

/// The position state after the last element of the two sequences, with
/// sums as rust_decimal computes them or, where `exact` holds, exact.
pub open spec fn position_state_in(exact: bool, amounts: Seq<Dec>, quantities: Seq<Dec>) -> Result<
    PositionState,
    AccountingError,
> {
    if amounts.len() != quantities.len() {
        Err(
            AccountingError::LengthMismatch {
                amounts: amounts.len() as usize,
                quantities: quantities.len() as usize,
            },
        )
    } else if amounts.len() == 0 {
        Err(AccountingError::Empty)
    } else {
        match fifo_replay(exact, amounts, quantities, amounts.len()) {
            Err(e) => Err(e),
            Ok((queue, units, sold)) => match sum_seq(exact, Dec::spec_zero(), queue) {
                None => Err(AccountingError::Overflow),
                Some(cost) => Ok(
                    PositionState {
                        cumulative_units: rounded_of(units.spec_abs(), 4),
                        cumulative_cost: cost.spec_abs(),
                        cost_of_units_sold: sold.spec_abs(),
                    },
                ),
            },
        }
    }
}

/// The position state after the last element, as the library computes it.
pub open spec fn position_state_of(amounts: Seq<Dec>, quantities: Seq<Dec>) -> Result<
    PositionState,
    AccountingError,
> {
    position_state_in(false, amounts, quantities)
}

pub proof fn lemma_sum_seq_push(exact: bool, start: Dec, s: Seq<Dec>, x: Dec)
    ensures
        sum_seq(exact, start, s.push(x)) == (match sum_seq(exact, start, s) {
            Some(t) => add_in(exact, t, x),
            None => None,
        }),
{
    assert(s.push(x).drop_last() =~= s);
}

/// Once a partial sum fails to fit, every longer one fails too.
pub proof fn lemma_sum_seq_none_prefix(exact: bool, start: Dec, s: Seq<Dec>, j: int, k: int)
    requires
        0 <= j <= k <= s.len(),
        sum_seq(exact, start, s.take(j)) is None,
    ensures
        sum_seq(exact, start, s.take(k)) is None,
    decreases k - j,
{
    if j < k {
        lemma_sum_seq_none_prefix(exact, start, s, j, k - 1);
        assert(s.take(k).drop_last() =~= s.take(k - 1));
    }
}

/// A replay that fails keeps failing with the same error.
pub proof fn lemma_replay_err_stays(exact: bool, amounts: Seq<Dec>, quantities: Seq<Dec>, n: nat, m: nat)
    requires
        n <= m,
        fifo_replay(exact, amounts, quantities, n) is Err,
    ensures
        fifo_replay(exact, amounts, quantities, m) == fifo_replay(exact, amounts, quantities, n),
    decreases m - n,
{
    if n < m {
        lemma_replay_err_stays(exact, amounts, quantities, n, (m - 1) as nat);
    }
}

/// The FIFO queue of unit costs (one per whole unit held, oldest first,
/// from `head` on) and the units held.
pub struct FifoLedger {
    pub queue: Vec<Dec>,
    pub head: usize,
    pub units: Dec,
}

impl FifoLedger {
    pub open spec fn lots(&self) -> Seq<Dec> {
        self.queue@.skip(self.head as int)
    }

    pub open spec fn wf(&self) -> bool {
        &&& self.head <= self.queue@.len()
        &&& all_wf(self.queue@)
        &&& self.units.wf()
    }

    pub fn new() -> (r: FifoLedger)
        ensures
            r.wf(),
            r.lots() == Seq::<Dec>::empty(),
            r.units == Dec::spec_zero(),
    {
        let r = FifoLedger { queue: Vec::new(), head: 0, units: Dec::zero() };
        proof {
            assert(r.lots() =~= Seq::<Dec>::empty());
        }
        r
    }

    /// Records one element whose unit cost is known; returns the cost of
    /// the units that it sold.
    pub fn record(&mut self, amount: Dec, quantity: Dec, cost: Dec) -> (r: Result<Dec, AccountingError>)
        requires
            old(self).wf(),
            amount.wf(),
            quantity.wf(),
            cost.wf(),
        ensures
            r matches Ok(sold) ==> final(self).wf() && sold.wf() && fifo_step_with(false, 
                old(self).lots(),
                old(self).units,
                amount,
                quantity,
                cost,
            ) == Some((final(self).lots(), final(self).units, sold)),
            r matches Err(e) ==> e == AccountingError::Overflow && fifo_step_with(false, 
                old(self).lots(),
                old(self).units,
                amount,
                quantity,
                cost,
            ) is None,
    {
        let ghost q0 = self.lots();
        let units2 = match self.units.checked_add(quantity) {
            Some(u) => u,
            None => return Err(AccountingError::Overflow),
        };
        let n = match quantity.floor_abs_i64() {
            Some(n) => n,
            None => return Err(AccountingError::Overflow),
        };
        proof {
            lemma_pow10_positive(quantity.scale as nat);
            lemma_sum_units(self.units, quantity);
        }
        let mut sold = Dec::zero();
        if amount.is_negative() {
            let mut c: i64 = 0;
            let ghost base = self.queue@;
            let ghost head0 = self.head;
            while c < n
                invariant
                    0 <= c <= n,
                    self.head == head0,
                    q0 == base.skip(head0 as int),
                    self.units == old(self).units,
                    self.head <= base.len(),
                    self.queue@ == base + lots(cost, c as nat),
                    all_wf(base),
                    cost.wf(),
                decreases n - c,
            {
                self.queue.push(cost);
                c = c + 1;
                proof {
                    assert(self.queue@ =~= base + lots(cost, c as nat));
                }
            }
            proof {
                assert(self.lots() =~= q0 + lots(cost, n as nat));
            }
        } else if amount.is_positive() {
            let ghost k = if n <= q0.len() { n as int } else { q0.len() as int };
            let ghost head0 = self.head;
            let mut j: i64 = 0;
            while j < n && self.head < self.queue.len()
                invariant
                    0 <= j <= n,
                    self.head == head0 + j,
                    head0 <= self.head <= self.queue.len(),
                    q0 == self.queue@.skip(head0 as int),
                    all_wf(self.queue@),
                    sold.wf(),
                    sum_seq(false, Dec::spec_zero(), q0.take(j as int)) == Some(sold),
                    k == (if n <= q0.len() { n as int } else { q0.len() as int }),
                    self.units == old(self).units,
                    q0 == old(self).lots(),
                    sum_of(old(self).units, quantity) == Some(units2),
                    n == quantity.floor_abs(),
                    amount.units() > 0,
                decreases n - j,
            {
                let x = self.queue[self.head];
                proof {
                    assert(q0.take(j + 1) =~= q0.take(j as int).push(x));
                    lemma_sum_seq_push(false, Dec::spec_zero(), q0.take(j as int), x);
                    lemma_sum_units(sold, x);
                }
                match sold.checked_add(x) {
                    Some(t) => sold = t,
                    None => {
                        proof {
                            assert(q0.len() == self.queue.len() - head0);
                            lemma_sum_seq_none_prefix(false, Dec::spec_zero(), q0, j + 1, k);
                        }
                        return Err(AccountingError::Overflow);
                    },
                }
                self.head = self.head + 1;
                j = j + 1;
            }
            proof {
                assert(j == k);
                assert(self.lots() =~= q0.skip(k));
            }
        }
        if units2.round_dp(4).is_zero() {
            self.head = self.queue.len();
            proof {
                assert(self.lots() =~= Seq::<Dec>::empty());
            }
        }
        self.units = units2;
        Ok(sold)
    }

    /// The sum of the unit costs in the queue.
    pub fn cumulative_cost(&self) -> (r: Result<Dec, AccountingError>)
        requires
            self.wf(),
        ensures
            r matches Ok(c) ==> c.wf() && sum_seq(false, Dec::spec_zero(), self.lots()) == Some(c),
            r matches Err(e) ==> e == AccountingError::Overflow && sum_seq(false, Dec::spec_zero(), self.lots())
                is None,
    {
        let mut total = Dec::zero();
        let mut t: usize = self.head;
        let ghost rest = self.lots();
        while t < self.queue.len()
            invariant
                self.wf(),
                self.head <= t <= self.queue.len(),
                rest == self.lots(),
                total.wf(),
                sum_seq(false, Dec::spec_zero(), rest.take(t - self.head)) == Some(total),
            decreases self.queue.len() - t,
        {
            let x = self.queue[t];
            proof {
                assert(rest.take(t - self.head + 1) =~= rest.take(t - self.head).push(x));
                lemma_sum_seq_push(false, Dec::spec_zero(), rest.take(t - self.head), x);
                lemma_sum_units(total, x);
            }
            match total.checked_add(x) {
                Some(s) => total = s,
                None => {
                    proof {
                        lemma_sum_seq_none_prefix(false, Dec::spec_zero(), rest, t - self.head + 1, rest.len() as int);
                        assert(rest.take(rest.len() as int) =~= rest);
                    }
                    return Err(AccountingError::Overflow);
                },
            }
            t = t + 1;
        }
        proof {
            assert(rest.take(t - self.head) =~= rest);
        }
        Ok(total)
    }
}

/// Replays the FIFO lot queue over signed amounts (negative for a buy) and
/// signed quantities (positive for units acquired), and returns the state
/// after the last element.
pub fn calculate_position_state(amounts: Vec<Dec>, quantities: Vec<Dec>) -> (r: Result<
    PositionState,
    AccountingError,
>)
    requires
        all_wf(amounts@),
        all_wf(quantities@),
    ensures
        r == position_state_of(amounts@, quantities@),
        r matches Ok(s) ==> s.cumulative_units.wf() && s.cumulative_cost.wf()
            && s.cost_of_units_sold.wf(),
{
    if amounts.len() != quantities.len() {
        return Err(
            AccountingError::LengthMismatch { amounts: amounts.len(), quantities: quantities.len() },
        );
    }
    if amounts.len() == 0 {
        return Err(AccountingError::Empty);
    }
    let mut ledger = FifoLedger::new();
    let mut sold = Dec::zero();
    let mut i: usize = 0;
    while i < amounts.len()
        invariant
            amounts.len() == quantities.len(),
            all_wf(amounts@),
            all_wf(quantities@),
            0 <= i <= amounts.len(),
            ledger.wf(),
            sold.wf(),
            fifo_replay(false, amounts@, quantities@, i as nat) == Ok::<_, AccountingError>(
                (ledger.lots(), ledger.units, sold),
            ),
        decreases amounts.len() - i,
    {
        let amount = amounts[i];
        let quantity = quantities[i];
        if quantity.is_zero() {
            proof { lemma_replay_err_stays(false, amounts@, quantities@, (i + 1) as nat, amounts.len() as nat); }
            return Err(AccountingError::ZeroQuantity { index: i });
        }
        let cost = match amount.checked_div(quantity) {
            Some(c) => c,
            None => {
                proof { lemma_replay_err_stays(false, amounts@, quantities@, (i + 1) as nat, amounts.len() as nat); }
                return Err(AccountingError::Overflow);
            },
        };
        match ledger.record(amount, quantity, cost) {
            Ok(s) => sold = s,
            Err(e) => {
                proof { lemma_replay_err_stays(false, amounts@, quantities@, (i + 1) as nat, amounts.len() as nat); }
                return Err(e);
            },
        }
        i = i + 1;
    }
    let total = match ledger.cumulative_cost() {
        Ok(t) => t,
        Err(e) => return Err(e),
    };
    Ok(PositionState { cumulative_units: ledger.units.abs().round_dp(4), cumulative_cost: total.abs(), cost_of_units_sold: sold.abs() })
}

/// Realized gain of a sell (`|amount| - cost_of_units_sold`) and dividends
/// of a dividend (`amount`); zero otherwise.
pub open spec fn gains_of(t: Transaction, s: PositionState) -> Option<TransactionGains> {
    match amount_of(t) {
        None => None,
        Some(a) => if t.transaction_type == TransactionType::Sell {
            match difference_of(a.spec_abs(), s.cost_of_units_sold) {
                None => None,
                Some(g) => Some(
                    TransactionGains { realized_gains: g, dividends_collected: Dec::spec_zero() },
                ),
            }
        } else if t.transaction_type == TransactionType::Div {
            Some(TransactionGains { realized_gains: Dec::spec_zero(), dividends_collected: a })
        } else {
            Some(
                TransactionGains {
                    realized_gains: Dec::spec_zero(),
                    dividends_collected: Dec::spec_zero(),
                },
            )
        },
    }
}

/// The gains that a transaction realizes given its position state; `None`
/// where its amount cannot be computed.
pub fn calculate_transaction_gains(transaction: &Transaction, position_state: &PositionState) -> (r:
    Option<TransactionGains>)
    requires
        transaction.wf(),
        position_state.cost_of_units_sold.wf(),
    ensures
        r == gains_of(*transaction, *position_state),
{
    let amount = match transaction.get_amount() {
        Some(a) => a,
        None => return None,
    };
    if transaction.transaction_type == TransactionType::Sell {
        match amount.abs().checked_sub(position_state.cost_of_units_sold) {
            Some(g) => Some(TransactionGains { realized_gains: g, dividends_collected: Dec::zero() }),
            None => None,
        }
    } else if transaction.transaction_type == TransactionType::Div {
        Some(TransactionGains { realized_gains: Dec::zero(), dividends_collected: amount })
    } else {
        Some(TransactionGains { realized_gains: Dec::zero(), dividends_collected: Dec::zero() })
    }
}

} // verus!
