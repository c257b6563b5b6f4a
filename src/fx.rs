//! Exchange rates: the identity rule and reading a provider's rate table.
use vstd::prelude::*;
use crate::decimal::Dec;
use crate::models::{one, text_is};

verus! {

/// No rate could be had for a currency pair and date.
#[derive(Clone, Copy, Debug, PartialEq, Eq, Structural)]
pub struct RateUnavailable;

/// Whether converting between the two currencies needs a provider.
pub fn needs_rate_lookup(base_currency: &str, transaction_currency: &str) -> (r: bool)
    ensures
        r == (base_currency@ != transaction_currency@),
{
    !text_is(base_currency, transaction_currency)
}

/// The multiplier from `transaction_currency` to `base_currency`: one where
/// the currencies are equal, whatever the provider answered; otherwise what
/// the provider answered for the date, if anything.
pub fn get_exchange_rate(
    base_currency: &str,
    transaction_currency: &str,
    looked_up: Option<Dec>,
) -> (r: Result<Dec, RateUnavailable>)
    ensures
        base_currency@ == transaction_currency@ ==> r == Ok::<Dec, RateUnavailable>(one()),
        base_currency@ != transaction_currency@ ==> r == (match looked_up {
            Some(x) => Ok(x),
            None => Err(RateUnavailable),
        }),
{
    if !needs_rate_lookup(base_currency, transaction_currency) {
        Ok(Dec::from_parts(1, 0).unwrap())
    } else {
        match looked_up {
            Some(x) => Ok(x),
            None => Err(RateUnavailable),
        }
    }
}

/// The rate listed for `currency` in a provider's table (the first entry
/// under that code), if any.
pub fn rate_from_table(rates: &Vec<(String, Dec)>, currency: &str) -> (r: Option<Dec>)
    ensures
        r is None <==> forall|i: int| 0 <= i < rates@.len() ==> rates@[i].0@ != currency@,
        r matches Some(x) ==> exists|i: int|
            0 <= i < rates@.len() && rates@[i].0@ == currency@ && rates@[i].1 == x && forall|j: int|
                0 <= j < i ==> rates@[j].0@ != currency@,
{
    let mut i: usize = 0;
    while i < rates.len()
        invariant
            0 <= i <= rates@.len(),
            forall|j: int| 0 <= j < i ==> rates@[j].0@ != currency@,
        decreases rates.len() - i,
    {
        if text_is(rates[i].0.as_str(), currency) {
            return Some(rates[i].1);
        }
        i = i + 1;
    }
    None
}

/// The rate cached for a currency at or after position `i`: the first entry
/// under its code.
pub open spec fn cached_from(entries: Seq<(String, Dec)>, currency: Seq<char>, i: int) -> Option<Dec>
    decreases entries.len() - i,
{
    if i < 0 || i >= entries.len() {
        None
    } else if entries[i].0@ == currency {
        Some(entries[i].1)
    } else {
        cached_from(entries, currency, i + 1)
    }
}

/// Rates "as of now" by currency code, kept for the length of one refresh.
/// A map: no code occurs twice (see `wf`).
pub struct RateCache {
    pub entries: Vec<(String, Dec)>,
}

impl RateCache {
    pub open spec fn wf(&self) -> bool {
        forall|i: int, j: int|
            0 <= i < j < self.entries@.len() ==> self.entries@[i].0@ != self.entries@[j].0@
    }

    pub open spec fn rate_of(&self, currency: Seq<char>) -> Option<Dec> {
        cached_from(self.entries@, currency, 0)
    }

    pub fn new() -> (r: RateCache)
        ensures
            r.wf(),
            forall|c: Seq<char>| r.rate_of(c) is None,
    {
        RateCache { entries: Vec::new() }
    }

    pub fn get(&self, currency: &str) -> (r: Option<Dec>)
        ensures
            r == self.rate_of(currency@),
    {
        let mut i: usize = 0;
        while i < self.entries.len()
            invariant
                0 <= i <= self.entries@.len(),
                self.rate_of(currency@) == cached_from(self.entries@, currency@, i as int),
            decreases self.entries.len() - i,
        {
            if text_is(self.entries[i].0.as_str(), currency) {
                return Some(self.entries[i].1);
            }
            i = i + 1;
        }
        None
    }

    /// Caches a rate for a currency, replacing the one it had.
    pub fn insert(&mut self, currency: String, rate: Dec)
        requires
            old(self).wf(),
        ensures
            final(self).wf(),
            final(self).rate_of(currency@) == Some(rate),
            forall|c: Seq<char>| c != currency@ ==> final(self).rate_of(c) == old(self).rate_of(c),
    {
        let mut i: usize = 0;
        while i < self.entries.len()
            invariant
                0 <= i <= self.entries@.len(),
                self.entries@ == old(self).entries@,
                old(self).wf(),
                forall|j: int| 0 <= j < i ==> self.entries@[j].0@ != currency@,
            decreases self.entries.len() - i,
        {
            if text_is(self.entries[i].0.as_str(), currency.as_str()) {
                let ghost before = self.entries@;
                self.entries.set(i, (currency, rate));
                proof {
                    lemma_cached_update(before, self.entries@, i as int);
                }
                return;
            }
            i = i + 1;
        }
        let ghost before = self.entries@;
        self.entries.push((currency, rate));
        proof {
            lemma_cached_push(before, self.entries@);
        }
    }
}

/// Replacing the first entry of a code changes what is cached for that code
/// only.
pub proof fn lemma_cached_update(before: Seq<(String, Dec)>, after: Seq<(String, Dec)>, i: int)
    requires
        0 <= i < before.len(),
        after.len() == before.len(),
        after[i].0@ == before[i].0@,
        forall|j: int| 0 <= j < i ==> before[j].0@ != after[i].0@,
        forall|j: int| 0 <= j < before.len() && j != i ==> after[j] == before[j],
    ensures
        cached_from(after, after[i].0@, 0) == Some(after[i].1),
        forall|c: Seq<char>| c != after[i].0@ ==> cached_from(after, c, 0) == cached_from(before, c, 0),
{
    assert forall|c: Seq<char>| c != after[i].0@ implies cached_from(after, c, 0) == cached_from(before, c, 0) by {
        lemma_cached_same_from(before, after, c, 0);
    }
    lemma_cached_first(after, after[i].0@, 0, i);
}

pub proof fn lemma_cached_same_from(before: Seq<(String, Dec)>, after: Seq<(String, Dec)>, c: Seq<char>, k: int)
    requires
        after.len() == before.len(),
        0 <= k <= before.len(),
        forall|j: int| 0 <= j < before.len() && before[j].0@ == c ==> after[j] == before[j],
        forall|j: int| 0 <= j < before.len() && before[j].0@ != c ==> after[j].0@ != c,
    ensures
        cached_from(after, c, k) == cached_from(before, c, k),
    decreases before.len() - k,
{
    if k < before.len() {
        lemma_cached_same_from(before, after, c, k + 1);
    }
}

pub proof fn lemma_cached_first(s: Seq<(String, Dec)>, c: Seq<char>, k: int, i: int)
    requires
        0 <= k <= i < s.len(),
        s[i].0@ == c,
        forall|j: int| k <= j < i ==> s[j].0@ != c,
    ensures
        cached_from(s, c, k) == Some(s[i].1),
    decreases i - k,
{
    if k < i {
        lemma_cached_first(s, c, k + 1, i);
    }
}

/// Appending an entry under a new code caches it and keeps the others.
pub proof fn lemma_cached_push(before: Seq<(String, Dec)>, after: Seq<(String, Dec)>)
    requires
        after.len() == before.len() + 1,
        forall|j: int| 0 <= j < before.len() ==> after[j] == before[j],
        forall|j: int| 0 <= j < before.len() ==> before[j].0@ != after[before.len() as int].0@,
    ensures
        cached_from(after, after[before.len() as int].0@, 0) == Some(after[before.len() as int].1),
        forall|c: Seq<char>| c != after[before.len() as int].0@ ==> cached_from(after, c, 0) == cached_from(before, c, 0),
{
    let n = before.len() as int;
    lemma_cached_first(after, after[n].0@, 0, n);
    assert forall|c: Seq<char>| c != after[n].0@ implies cached_from(after, c, 0) == cached_from(before, c, 0) by {
        lemma_cached_prefix(before, after, c, 0);
    }
}

pub proof fn lemma_cached_prefix(before: Seq<(String, Dec)>, after: Seq<(String, Dec)>, c: Seq<char>, k: int)
    requires
        after.len() == before.len() + 1,
        0 <= k <= before.len(),
        forall|j: int| 0 <= j < before.len() ==> after[j] == before[j],
        after[before.len() as int].0@ != c,
    ensures
        cached_from(after, c, k) == cached_from(before, c, k),
    decreases before.len() - k,
{
    if k < before.len() {
        lemma_cached_prefix(before, after, c, k + 1);
    } else {
        assert(cached_from(after, c, k + 1) is None);
    }
}

} // verus!
