//! What the FIFO replay guarantees, proved from its model.
use vstd::prelude::*;
use crate::decimal::{
    Dec, sum_of, exact_sum, quotient_of, rounded_of, pow10, abs_i, MAX_SCALE, lemma_sum_units,
    lemma_units_sign, lemma_pow10_positive, lemma_pow10_add,
};
use crate::calc::{
    all_wf, add_in, sum_seq, lots, fifo_step_with, fifo_replay, position_state_in, position_state_of,
    AccountingError,
};

verus! {

/// The sum of the values of a sequence, in steps of `10^-28`.
pub open spec fn units_total(s: Seq<Dec>) -> int
    decreases s.len(),
{
    if s.len() == 0 {
        0
    } else {
        units_total(s.drop_last()) + s.last().units()
    }
}

pub proof fn lemma_units_total_concat(s: Seq<Dec>, t: Seq<Dec>)
    ensures
        units_total(s + t) == units_total(s) + units_total(t),
    decreases t.len(),
{
    if t.len() > 0 {
        assert((s + t).drop_last() =~= s + t.drop_last());
        lemma_units_total_concat(s, t.drop_last());
    } else {
        assert(s + t =~= s);
    }
}

pub proof fn lemma_units_total_lots(c: Dec, n: nat)
    ensures
        units_total(lots(c, n)) == n * c.units(),
    decreases n,
{
    if n > 0 {
        assert(lots(c, n).drop_last() =~= lots(c, (n - 1) as nat));
        lemma_units_total_lots(c, (n - 1) as nat);
        assert(lots(c, n).last() == c);
        assert(n * c.units() == (n - 1) * c.units() + c.units()) by (nonlinear_arith);
    } else {
        assert(lots(c, n).len() == 0);
        assert(0 * c.units() == 0);
    }
}

/// A running sum that exists is the exact total.
pub proof fn lemma_sum_seq_total(start: Dec, s: Seq<Dec>)
    requires
        start.wf(),
        all_wf(s),
    ensures
        sum_seq(true, start, s) matches Some(t) ==> t.wf() && t.units() == start.units() + units_total(s),
    decreases s.len(),
{
    if s.len() > 0 {
        lemma_sum_seq_total(start, s.drop_last());
        if let Some(t) = sum_seq(true, start, s.drop_last()) {
            lemma_sum_units(t, s.last());
        }
    }
}

pub proof fn lemma_lots_wf(c: Dec, n: nat)
    requires
        c.wf(),
    ensures
        all_wf(lots(c, n)),
{
}

/// Two values that cancel have an exact sum, zero.
pub proof fn lemma_exact_sum_cancels(a: Dec, b: Dec)
    requires
        a.wf(),
        b.wf(),
        a.units() + b.units() == 0,
    ensures
        exact_sum(a, b) matches Some(c) && c.mantissa == 0,
{
    lemma_units_sign(a);
    lemma_units_sign(b);
    let s = if a.scale >= b.scale { a.scale } else { b.scale };
    crate::decimal::lemma_units_of_scaled(a.mantissa as int, a.scale as nat, (s - a.scale) as nat);
    crate::decimal::lemma_units_of_scaled(b.mantissa as int, b.scale as nat, (s - b.scale) as nat);
    let ma = a.mantissa * pow10((s - a.scale) as nat);
    let mb = b.mantissa * pow10((s - b.scale) as nat);
    let p = pow10((MAX_SCALE - s) as nat);
    lemma_pow10_positive((MAX_SCALE - s) as nat);
    assert((ma + mb) * p == ma * p + mb * p) by (nonlinear_arith);
    assert(ma + mb == 0) by (nonlinear_arith)
        requires (ma + mb) * p == 0, p >= 1;
}

/// A value whose mantissa is zero rounds to zero.
pub proof fn lemma_zero_rounds_to_zero(d: Dec, dp: u32)
    requires
        d.mantissa == 0,
    ensures
        rounded_of(d, dp).mantissa == 0,
        rounded_of(d, dp).units() == 0,
{
    if d.scale > dp {
        lemma_pow10_positive((d.scale - dp) as nat);
    }
    lemma_units_sign(rounded_of(d, dp));
}

/// Selling all units of a lot just bought leaves no units and no cost basis:
/// the FIFO queue is drained.
pub proof fn lemma_buy_then_full_sell_drains(
    buy_amount: Dec,
    buy_quantity: Dec,
    sell_amount: Dec,
    sell_quantity: Dec,
)
    requires
        buy_amount.wf(),
        buy_quantity.wf(),
        sell_amount.wf(),
        sell_quantity.wf(),
        buy_amount.units() < 0,
        buy_quantity.units() > 0,
        sell_amount.units() > 0,
        sell_quantity.units() == -buy_quantity.units(),
    ensures
        position_state_of(seq![buy_amount, sell_amount], seq![buy_quantity, sell_quantity]) matches Ok(
            s,
        ) ==> s.cumulative_units.units() == 0 && s.cumulative_cost.units() == 0,
{
    let a = seq![buy_amount, sell_amount];
    let q = seq![buy_quantity, sell_quantity];
    if let Ok(s) = position_state_of(a, q) {
        assert(fifo_replay(false, a, q, 2) is Ok);
        if fifo_replay(false, a, q, 1) is Err {
            assert(fifo_replay(false, a, q, 2) == fifo_replay(false, a, q, 1));
        }
        let (q1, u1, s1) = fifo_replay(false, a, q, 1)->Ok_0;
        assert(fifo_replay(false, a, q, 0) == Ok::<_, AccountingError>(
            (Seq::<Dec>::empty(), Dec::spec_zero(), Dec::spec_zero()),
        ));
        assert(u1 == buy_quantity);
        lemma_exact_sum_cancels(u1, sell_quantity);
        let u2 = exact_sum(u1, sell_quantity)->Some_0;
        assert(sum_of(u1, sell_quantity) == Some(u2));
        lemma_zero_rounds_to_zero(u2, 4);
        let (q2, uu, ss) = fifo_replay(false, a, q, 2)->Ok_0;
        assert(q2 =~= Seq::<Dec>::empty());
        assert(uu == u2);
        lemma_zero_rounds_to_zero(u2.spec_abs(), 4);
        lemma_units_sign(Dec::spec_zero());
    }
}

/// The position is FIFO, not average cost: with two buys whose unit costs
/// differ in size, a later sell of no more units than either buy holds
/// consumes the cost of whichever buy came first, so swapping the two buys
/// changes the cost of the units sold. Stated where both replays add
/// exactly, with no sum rounded.
pub proof fn lemma_buy_order_changes_cost_sold(
    amount1: Dec,
    quantity1: Dec,
    amount2: Dec,
    quantity2: Dec,
    sell_amount: Dec,
    sell_quantity: Dec,
)
    requires
        amount1.wf(),
        quantity1.wf(),
        amount2.wf(),
        quantity2.wf(),
        sell_amount.wf(),
        sell_quantity.wf(),
        amount1.units() < 0,
        amount2.units() < 0,
        quantity1.units() > 0,
        quantity2.units() > 0,
        sell_amount.units() > 0,
        sell_quantity.units() < 0,
        1 <= sell_quantity.floor_abs(),
        sell_quantity.floor_abs() <= quantity1.floor_abs(),
        sell_quantity.floor_abs() <= quantity2.floor_abs(),
        quotient_of(amount1, quantity1) matches Some(c1) && c1.wf(),
        quotient_of(amount2, quantity2) matches Some(c2) && c2.wf(),
        abs_i(quotient_of(amount1, quantity1)->Some_0.units()) != abs_i(
            quotient_of(amount2, quantity2)->Some_0.units(),
        ),
        position_state_in(true, seq![amount1, amount2, sell_amount], seq![quantity1, quantity2, sell_quantity]) is Ok,
        position_state_in(true, seq![amount2, amount1, sell_amount], seq![quantity2, quantity1, sell_quantity]) is Ok,
    ensures
        position_state_of(seq![amount1, amount2, sell_amount], seq![quantity1, quantity2, sell_quantity]) matches Ok(s)
            && position_state_of(seq![amount2, amount1, sell_amount], seq![quantity2, quantity1, sell_quantity]) matches Ok(t)
            && s.cost_of_units_sold.units() != t.cost_of_units_sold.units(),
{
    lemma_exact_replay_agrees(seq![amount1, amount2, sell_amount], seq![quantity1, quantity2, sell_quantity]);
    lemma_exact_replay_agrees(seq![amount2, amount1, sell_amount], seq![quantity2, quantity1, sell_quantity]);
    let c1 = quotient_of(amount1, quantity1)->Some_0;
    let c2 = quotient_of(amount2, quantity2)->Some_0;
    let k = sell_quantity.floor_abs();
    if let Ok(s) = position_state_in(true, 
        seq![amount1, amount2, sell_amount],
        seq![quantity1, quantity2, sell_quantity],
    ) {
        if let Ok(t) = position_state_in(true, 
            seq![amount2, amount1, sell_amount],
            seq![quantity2, quantity1, sell_quantity],
        ) {
            lemma_first_lot_sold(amount1, quantity1, amount2, quantity2, sell_amount, sell_quantity);
            lemma_first_lot_sold(amount2, quantity2, amount1, quantity1, sell_amount, sell_quantity);
            lemma_pow10_positive(0);
            assert(abs_i(k * c1.units()) != abs_i(k * c2.units())) by (nonlinear_arith)
                requires k >= 1, abs_i(c1.units()) != abs_i(c2.units());
            lemma_units_sign(s.cost_of_units_sold);
        }
    }
}

/// Two buys and a sell of at most the first buy's units: the sell consumes
/// that many units at the first buy's unit cost.
pub proof fn lemma_first_lot_sold(
    amount1: Dec,
    quantity1: Dec,
    amount2: Dec,
    quantity2: Dec,
    sell_amount: Dec,
    sell_quantity: Dec,
)
    requires
        amount1.wf(),
        quantity1.wf(),
        amount2.wf(),
        quantity2.wf(),
        sell_amount.wf(),
        sell_quantity.wf(),
        amount1.units() < 0,
        amount2.units() < 0,
        quantity1.units() > 0,
        quantity2.units() > 0,
        sell_amount.units() > 0,
        1 <= quantity1.floor_abs(),
        sell_quantity.floor_abs() <= quantity1.floor_abs(),
        quotient_of(amount1, quantity1) matches Some(c1) && c1.wf(),
        quotient_of(amount2, quantity2) matches Some(c2) && c2.wf(),
        position_state_in(true, 
            seq![amount1, amount2, sell_amount],
            seq![quantity1, quantity2, sell_quantity],
        ) is Ok,
    ensures
        abs_i(
            position_state_in(true, 
                seq![amount1, amount2, sell_amount],
                seq![quantity1, quantity2, sell_quantity],
            )->Ok_0.cost_of_units_sold.units(),
        ) == abs_i(sell_quantity.floor_abs() * quotient_of(amount1, quantity1)->Some_0.units()),
{
    let a = seq![amount1, amount2, sell_amount];
    let q = seq![quantity1, quantity2, sell_quantity];
    let c1 = quotient_of(amount1, quantity1)->Some_0;
    let c2 = quotient_of(amount2, quantity2)->Some_0;
    let n1 = quantity1.floor_abs();
    let n2 = quantity2.floor_abs();
    let k = sell_quantity.floor_abs();
    assert(fifo_replay(true, a, q, 3) is Ok);
    if fifo_replay(true, a, q, 2) is Err {
        assert(fifo_replay(true, a, q, 3) == fifo_replay(true, a, q, 2));
    }
    if fifo_replay(true, a, q, 1) is Err {
        assert(fifo_replay(true, a, q, 2) == fifo_replay(true, a, q, 1));
    }
    assert(fifo_replay(true, a, q, 0) == Ok::<_, crate::calc::AccountingError>(
        (Seq::<Dec>::empty(), Dec::spec_zero(), Dec::spec_zero()),
    ));
    let (qa, ua, sa) = fifo_replay(true, a, q, 1)->Ok_0;
    assert(ua == quantity1);
    lemma_floor_one_unit(quantity1);
    lemma_one_unit_survives_rounding(ua);
    assert(qa =~= lots(c1, n1 as nat));
    let (qb, ub, sb) = fifo_replay(true, a, q, 2)->Ok_0;
    lemma_sum_units(ua, quantity2);
    lemma_one_unit_survives_rounding(ub);
    assert(qb =~= lots(c1, n1 as nat) + lots(c2, n2 as nat));
    lemma_pow10_positive(sell_quantity.scale as nat);
    assert(k >= 0);
    assert(qb.take(k) =~= lots(c1, k as nat));
    let (qc, uc, sc) = fifo_replay(true, a, q, 3)->Ok_0;
    assert(sum_seq(true, Dec::spec_zero(), lots(c1, k as nat)) == Some(sc));
    lemma_lots_wf(c1, k as nat);
    lemma_sum_seq_total(Dec::spec_zero(), lots(c1, k as nat));
    lemma_units_total_lots(c1, k as nat);
    lemma_units_sign(Dec::spec_zero());
    lemma_units_sign(sc);
}

/// For a positive whole number, the whole units are its value.
pub proof fn lemma_whole_floor(q: Dec)
    requires
        q.wf(),
        q.is_whole(),
        q.units() > 0,
    ensures
        q.floor_abs() == q.units() / pow10(MAX_SCALE as nat),
{
    let s = q.scale as nat;
    let e = (MAX_SCALE - q.scale) as nat;
    lemma_pow10_add(s, e);
    lemma_pow10_positive(s);
    lemma_pow10_positive(e);
    lemma_pow10_positive(MAX_SCALE as nat);
    lemma_units_sign(q);
    let ps = pow10(s);
    let pe = pow10(e);
    let m = q.mantissa as int;
    let kk = q.units() / pow10(MAX_SCALE as nat);
    assert(s + e == MAX_SCALE);
    assert(q.units() == kk * (ps * pe)) by (nonlinear_arith)
        requires q.units() % pow10(MAX_SCALE as nat) == 0, pow10(MAX_SCALE as nat) == ps * pe,
            pow10(MAX_SCALE as nat) >= 1, kk == q.units() / pow10(MAX_SCALE as nat);
    assert(m * pe == (kk * ps) * pe) by (nonlinear_arith)
        requires q.units() == m * pe, q.units() == kk * (ps * pe);
    assert(m == kk * ps) by (nonlinear_arith)
        requires m * pe == (kk * ps) * pe, pe >= 1;
    assert(m / ps == kk) by (nonlinear_arith)
        requires m == kk * ps, ps >= 1;
}

/// The conditions under which the replay of buys keeps exact totals: each
/// element is a buy of a positive whole number of units with at most four
/// decimal places, whose unit cost rust_decimal computes exactly.
pub open spec fn exact_buys(amounts: Seq<Dec>, quantities: Seq<Dec>) -> bool {
    &&& amounts.len() == quantities.len()
    &&& all_wf(amounts)
    &&& all_wf(quantities)
    &&& forall|i: int|
        0 <= i < amounts.len() ==> {
            &&& (#[trigger] amounts[i]).units() < 0
            &&& quantities[i].units() > 0
            &&& quantities[i].is_whole()
            &&& quantities[i].scale <= 4
            &&& quotient_of(amounts[i], quantities[i]) matches Some(c) && c.wf() && c.units() * (
            quantities[i].units() / pow10(MAX_SCALE as nat)) == amounts[i].units()
        }
}

pub proof fn lemma_buys_prefix(amounts: Seq<Dec>, quantities: Seq<Dec>, n: nat)
    requires
        exact_buys(amounts, quantities),
        n <= amounts.len(),
    ensures
        fifo_replay(true, amounts, quantities, n) matches Ok((queue, units, sold)) ==> {
            &&& all_wf(queue)
            &&& units_total(queue) == units_total(amounts.take(n as int))
            &&& units.wf()
            &&& units.scale <= 4
            &&& units.units() == units_total(quantities.take(n as int))
            &&& units.units() >= 0
        },
    decreases n,
{
    if n == 0 {
        assert(amounts.take(0) =~= Seq::<Dec>::empty());
        assert(quantities.take(0) =~= Seq::<Dec>::empty());
        assert(Seq::<Dec>::empty().len() == 0);
        lemma_units_sign(Dec::spec_zero());
    } else {
        let i = n - 1;
        lemma_buys_prefix(amounts, quantities, (n - 1) as nat);
        assert(amounts.take(n as int).drop_last() =~= amounts.take(i));
        assert(quantities.take(n as int).drop_last() =~= quantities.take(i));
        assert(amounts.take(n as int).last() == amounts[i]);
        assert(quantities.take(n as int).last() == quantities[i]);
        if let Ok((queue, units, sold)) = fifo_replay(true, amounts, quantities, n) {
            let (q0, u0, s0) = fifo_replay(true, amounts, quantities, (n - 1) as nat)->Ok_0;
            let a = amounts[i];
            let q = quantities[i];
            let c = quotient_of(a, q)->Some_0;
            let cnt = q.floor_abs();
            assert(a.units() < 0);
            lemma_sum_units(u0, q);
            lemma_whole_floor(q);
            assert(units.units() > 0);
            assert(rounded_of(units, 4) == units);
            lemma_units_sign(units);
            assert(queue == q0 + lots(c, cnt as nat));
            lemma_units_total_concat(q0, lots(c, cnt as nat));
            lemma_units_total_lots(c, cnt as nat);
            assert(cnt * c.units() == a.units()) by (nonlinear_arith)
                requires c.units() * cnt == a.units();
            assert(all_wf(queue));
            assert(units == exact_sum(u0, q)->Some_0);
            assert(units.scale <= 4);
            assert(units_total(q0) == units_total(amounts.take(i)));
            lemma_pow10_positive(q.scale as nat);
            assert(cnt >= 0);
            assert(c.units() * (q.units() / pow10(MAX_SCALE as nat)) == a.units());
            assert(c.units() * cnt == a.units());
            assert(units_total(lots(c, cnt as nat)) == (cnt as nat) * c.units());
            assert(units_total(lots(c, cnt as nat)) == a.units());
            assert(units_total(queue) == units_total(q0) + a.units());
            assert(units_total(amounts.take(n as int)) == units_total(amounts.take(i)) + a.units());
            assert(units.units() == units_total(quantities.take(n as int)));
        }
    }
}

/// Replaying buys only, the units held are the sum of the quantities and the
/// cost basis is the sum of what was paid (`-amount` for each buy), provided
/// each quantity is a whole number with at most four decimal places, each
/// unit cost is exact, and the replay adds exactly (no sum rounded or
/// overflowing); the replay then succeeds.
pub proof fn lemma_buys_only_totals(amounts: Seq<Dec>, quantities: Seq<Dec>)
    requires
        amounts.len() > 0,
        exact_buys(amounts, quantities),
        position_state_in(true, amounts, quantities) is Ok,
    ensures
        position_state_of(amounts, quantities) is Ok,
        position_state_of(amounts, quantities) matches Ok(s) ==> {
            &&& s.cumulative_units.units() == units_total(quantities)
            &&& s.cumulative_cost.units() == -units_total(amounts)
        },
{
    lemma_exact_replay_agrees(amounts, quantities);
    let n = amounts.len();
    lemma_buys_prefix(amounts, quantities, n);
    assert(amounts.take(n as int) =~= amounts);
    assert(quantities.take(n as int) =~= quantities);
    if let Ok(s) = position_state_in(true, amounts, quantities) {
        let (queue, units, sold) = fifo_replay(true, amounts, quantities, n)->Ok_0;
        lemma_sum_seq_total(Dec::spec_zero(), queue);
        lemma_units_sign(Dec::spec_zero());
        let cost = sum_seq(true, Dec::spec_zero(), queue)->Some_0;
        lemma_all_negative_total(amounts);
        assert forall|i: int| 0 <= i < quantities.len() implies (#[trigger] quantities[i]).units() > 0 by {
            assert(amounts[i].units() < 0);
        }
        lemma_all_positive_total(quantities);
        lemma_units_sign(units);
        lemma_units_sign(cost);
    }
}

pub proof fn lemma_all_negative_total(s: Seq<Dec>)
    requires
        forall|i: int| 0 <= i < s.len() ==> (#[trigger] s[i]).units() < 0,
    ensures
        units_total(s) <= 0,
    decreases s.len(),
{
    if s.len() > 0 {
        lemma_all_negative_total(s.drop_last());
    }
}

pub proof fn lemma_all_positive_total(s: Seq<Dec>)
    requires
        forall|i: int| 0 <= i < s.len() ==> (#[trigger] s[i]).units() > 0,
    ensures
        units_total(s) >= 0,
    decreases s.len(),
{
    if s.len() > 0 {
        lemma_all_positive_total(s.drop_last());
    }
}

/// A positive value with at least one whole unit is at least one.
pub proof fn lemma_floor_one_unit(q: Dec)
    requires
        q.wf(),
        q.units() > 0,
        q.floor_abs() >= 1,
    ensures
        q.units() >= pow10(MAX_SCALE as nat),
{
    lemma_units_sign(q);
    let ps = pow10(q.scale as nat);
    let pe = pow10((MAX_SCALE - q.scale) as nat);
    lemma_pow10_positive(q.scale as nat);
    lemma_pow10_positive((MAX_SCALE - q.scale) as nat);
    lemma_pow10_add(q.scale as nat, (MAX_SCALE - q.scale) as nat);
    let m = q.mantissa as int;
    assert(m >= ps) by (nonlinear_arith)
        requires m / ps >= 1, ps >= 1, m > 0;
    assert(m * pe >= ps * pe) by (nonlinear_arith)
        requires m >= ps, pe >= 1;
}

/// A value of at least one keeps a non-zero value when rounded to four
/// places.
pub proof fn lemma_one_unit_survives_rounding(d: Dec)
    requires
        d.wf(),
        d.units() >= pow10(MAX_SCALE as nat),
    ensures
        rounded_of(d, 4).units() > 0,
{
    lemma_pow10_positive(MAX_SCALE as nat);
    lemma_units_sign(d);
    if d.scale > 4 {
        let s = d.scale as nat;
        let ps = pow10(s);
        let pe = pow10((MAX_SCALE - d.scale) as nat);
        let p = pow10((d.scale - 4) as nat);
        lemma_pow10_positive(s);
        lemma_pow10_positive((MAX_SCALE - d.scale) as nat);
        lemma_pow10_positive((d.scale - 4) as nat);
        lemma_pow10_add(s, (MAX_SCALE - d.scale) as nat);
        crate::decimal::lemma_pow10_monotone((d.scale - 4) as nat, s);
        let m = d.mantissa as int;
        assert(m >= ps) by (nonlinear_arith)
            requires m * pe >= ps * pe, pe >= 1;
        assert(m / p >= 1) by (nonlinear_arith)
            requires m >= p, p >= 1;
        assert(m / p <= m) by (nonlinear_arith)
            requires m >= 0, p >= 1;
        assert(rounded_of(d, 4).mantissa >= 1);
        lemma_units_sign(rounded_of(d, 4));
    }
}

/// Where the exact running sum exists, the library's is the same.
pub proof fn lemma_sum_seq_agrees(start: Dec, s: Seq<Dec>)
    requires
        sum_seq(true, start, s) is Some,
    ensures
        sum_seq(false, start, s) == sum_seq(true, start, s),
    decreases s.len(),
{
    if s.len() > 0 {
        lemma_sum_seq_agrees(start, s.drop_last());
    }
}

/// Where the exact step succeeds, the library's step is the same.
pub proof fn lemma_step_agrees(queue: Seq<Dec>, units: Dec, amount: Dec, quantity: Dec, cost: Dec)
    requires
        fifo_step_with(true, queue, units, amount, quantity, cost) is Some,
    ensures
        fifo_step_with(false, queue, units, amount, quantity, cost) == fifo_step_with(
            true,
            queue,
            units,
            amount,
            quantity,
            cost,
        ),
{
    let n = quantity.floor_abs();
    let k = if n <= queue.len() { n } else { queue.len() as int };
    if amount.units() > 0 && n <= i64::MAX {
        lemma_sum_seq_agrees(Dec::spec_zero(), queue.take(k));
    }
}

/// Where the exact replay succeeds, the library's replay is the same.
pub proof fn lemma_replay_agrees(amounts: Seq<Dec>, quantities: Seq<Dec>, n: nat)
    requires
        fifo_replay(true, amounts, quantities, n) is Ok,
    ensures
        fifo_replay(false, amounts, quantities, n) == fifo_replay(true, amounts, quantities, n),
    decreases n,
{
    if n > 0 {
        let m = (n - 1) as nat;
        if fifo_replay(true, amounts, quantities, m) is Err {
            crate::calc::lemma_replay_err_stays(true, amounts, quantities, m, n);
        }
        lemma_replay_agrees(amounts, quantities, m);
        let (queue, units, sold) = fifo_replay(true, amounts, quantities, m)->Ok_0;
        let i = n - 1;
        if quantities[i].units() != 0 {
            if let Some(cost) = quotient_of(amounts[i], quantities[i]) {
                lemma_step_agrees(queue, units, amounts[i], quantities[i], cost);
            }
        }
    }
}

/// Where the replay adds exactly (no sum rounded or overflowing), the
/// library's result is the exact one.
pub proof fn lemma_exact_replay_agrees(amounts: Seq<Dec>, quantities: Seq<Dec>)
    requires
        position_state_in(true, amounts, quantities) is Ok,
    ensures
        position_state_of(amounts, quantities) == position_state_in(true, amounts, quantities),
{
    lemma_replay_agrees(amounts, quantities, amounts.len());
    let (queue, units, sold) = fifo_replay(true, amounts, quantities, amounts.len())->Ok_0;
    lemma_sum_seq_agrees(Dec::spec_zero(), queue);
}

} // verus!
