//! Importing a ledger file: parsing its records, the idempotency watermark,
//! resolving each row's ticker and rates, and replaying each position.
use vstd::prelude::*;
use chrono::Datelike;
use crate::decimal::{Dec, decimal_parsed, product_of};
use crate::models::{
    Date, Ticker, Transaction, TransactionType, transaction_type_named, text_is, one, amount_of,
    signed_quantity_of,
};
use crate::holdings::{holdings_of, PositionInput};
use crate::calc::{
    all_wf, position_state_of, gains_of, calculate_position_state, calculate_transaction_gains,
};

verus! {

/// The number of columns of a ledger record.
pub const RECORD_COLUMNS: usize = 10;

/// Why an import stops. Rows count from 1, the first record after the
/// header; columns count from 0.
#[derive(Clone, Copy, Debug, PartialEq, Eq, Structural)]
pub enum ImportError {
    TooFewColumns { found: usize },
    MissingColumn { row: usize, column: usize },
    InvalidField { row: usize, column: usize },
    UnknownSymbol { row: usize },
    RateUnavailable { row: usize },
    Accounting { row: usize, error: crate::calc::AccountingError },
    AmountOverflow { row: usize },
}

pub open spec fn is_ascii_digit(c: char) -> bool {
    '0' <= c && c <= '9'
}

/// The number that a sequence of decimal digits denotes.
pub open spec fn digits_value(s: Seq<char>) -> int
    decreases s.len(),
{
    if s.len() == 0 {
        0
    } else {
        digits_value(s.drop_last()) * 10 + (s.last() as u32 - '0' as u32)
    }
}

pub open spec fn all_digits(b: Seq<char>) -> bool {
    forall|i: int| 0 <= i < b.len() ==> is_ascii_digit(#[trigger] b[i])
}

/// The text after an optional leading sign.
pub open spec fn unsigned_part(s: Seq<char>) -> Seq<char> {
    if s.len() > 0 && (s[0] == '-' || s[0] == '+') {
        s.skip(1)
    } else {
        s
    }
}

/// What `str::parse::<i64>` gives for a text: an optional `+` or `-`, then
/// one or more ASCII digits, whose value lies in the range of `i64`.
pub open spec fn parsed_i64(s: Seq<char>) -> Option<i64> {
    let negative = s.len() > 0 && s[0] == '-';
    let body = unsigned_part(s);
    let v = if negative { -digits_value(body) } else { digits_value(body) };
    if body.len() > 0 && all_digits(body) && i64::MIN <= v <= i64::MAX {
        Some(v as i64)
    } else {
        None
    }
}

/// What chrono's `NaiveDate::parse_from_str` with `%Y-%m-%d` gives.
pub uninterp spec fn parsed_date(s: Seq<char>) -> Option<Date>;

/// Relies on `chrono::NaiveDate::parse_from_str` with the format `%Y-%m-%d`:
/// a calendar date, whose month and day are in range.
#[verifier::external_body]
fn parse_date(s: &str) -> (r: Option<Date>)
    ensures
        r == parsed_date(s@),
        r matches Some(d) ==> 1 <= d.month <= 12 && 1 <= d.day <= 31,
{
    match chrono::NaiveDate::parse_from_str(s, "%Y-%m-%d") {
        Ok(d) => Some(Date { year: d.year(), month: d.month(), day: d.day() }),
        Err(_) => None,
    }
}

/// The value of a prefix of digits does not exceed that of a longer one.
pub proof fn lemma_digits_value_grows(body: Seq<char>, j: int, k: int)
    requires
        0 <= j <= k <= body.len(),
        forall|i: int| 0 <= i < k ==> is_ascii_digit(#[trigger] body[i]),
    ensures
        0 <= digits_value(body.take(j)) <= digits_value(body.take(k)),
    decreases k - j,
{
    if j < k {
        lemma_digits_value_grows(body, j, k - 1);
        assert(body.take(k).drop_last() =~= body.take(k - 1));
        assert(body.take(k).last() == body[k - 1]);
    } else {
        lemma_digits_value_nonnegative(body, k);
    }
}

pub proof fn lemma_digits_value_nonnegative(body: Seq<char>, k: int)
    requires
        0 <= k <= body.len(),
        forall|i: int| 0 <= i < k ==> is_ascii_digit(#[trigger] body[i]),
    ensures
        digits_value(body.take(k)) >= 0,
    decreases k,
{
    if k > 0 {
        lemma_digits_value_nonnegative(body, k - 1);
        assert(body.take(k).drop_last() =~= body.take(k - 1));
        assert(body.take(k).last() == body[k - 1]);
    }
}

/// An integer field, read as `str::parse::<i64>` reads it.
pub fn parse_i64_text(s: &str) -> (r: Option<i64>)
    ensures
        r == parsed_i64(s@),
{
    let n = s.unicode_len();
    if n == 0 {
        return None;
    }
    let first = s.get_char(0);
    let negative = first == '-';
    let start: usize = if first == '-' || first == '+' { 1 } else { 0 };
    let ghost body = if start == 1 { s@.skip(1) } else { s@ };
    proof {
        assert(first == s@[0]);
        if start == 0 {
            assert(s@.skip(0) =~= s@);
        }
    }
    if start == n {
        return None;
    }
    let mut acc: i128 = 0;
    let mut i: usize = start;
    while i < n
        invariant
            n == s@.len(),
            start <= i <= n,
            start == 0 || start == 1,
            body == s@.skip(start as int),
            body == unsigned_part(s@),
            negative == (s@.len() > 0 && s@[0] == '-'),
            forall|j: int| 0 <= j < i - start ==> is_ascii_digit(#[trigger] body[j]),
            acc == digits_value(body.take(i - start)),
            0 <= acc <= 9223372036854775808,
        decreases n - i,
    {
        let c = s.get_char(i);
        proof {
            assert(body[i - start] == c);
        }
        if !('0' <= c && c <= '9') {
            proof {
                assert(!is_ascii_digit(body[i - start]));
                assert(!all_digits(body));
                assert(parsed_i64(s@) is None);
            }
            return None;
        }
        proof {
            assert(body.take(i - start + 1).drop_last() =~= body.take(i - start));
            assert(body.take(i - start + 1).last() == c);
        }
        acc = acc * 10 + (c as u32 - '0' as u32) as i128;
        i = i + 1;
        if acc > 9223372036854775808 {
            proof {
                let k = i - start;
                if all_digits(body) {
                    lemma_digits_value_grows(body, k, body.len() as int);
                    assert(body.take(body.len() as int) =~= body);
                    assert(digits_value(body) > 9223372036854775808);
                }
                assert(parsed_i64(s@) is None);
            }
            return None;
        }
    }
    proof {
        assert(body.take(n - start) =~= body);
        assert(body == unsigned_part(s@));
    }
    let v: i128 = if negative { -acc } else { acc };
    if v < i64::MIN as i128 || v > i64::MAX as i128 {
        None
    } else {
        Some(v as i64)
    }
}

/// A date written `YYYY-MM-DD`.
pub fn parse_datetime(s: &str) -> (r: Option<Date>)
    ensures
        r == parsed_date(s@),
        r matches Some(d) ==> 1 <= d.month <= 12 && 1 <= d.day <= 31,
{
    parse_date(s)
}

/// A decimal field such as `-1777.02`.
pub fn parse_decimal(field: &str) -> (r: Option<Dec>)
    ensures
        r == decimal_parsed(field@),
        r matches Some(d) ==> d.wf(),
{
    Dec::parse(field)
}

/// One ledger record with its fields parsed.
#[derive(Clone, Debug)]
pub struct CsvRow {
    pub transaction_no: i64,
    pub date: Date,
    pub transaction_type: TransactionType,
    pub symbol: String,
    pub quantity: Dec,
    pub price: Dec,
    pub fees: Dec,
    pub broker: String,
    pub alternative_symbol: String,
    /// Empty where the row is in the ticker's own currency.
    pub transaction_currency: String,
}

impl CsvRow {
    pub open spec fn wf(&self) -> bool {
        self.quantity.wf() && self.price.wf() && self.fees.wf()
    }
}

/// The header must name at least the ten columns of a record.
pub fn check_header(columns: usize) -> (r: Result<(), ImportError>)
    ensures
        r is Ok <==> columns >= RECORD_COLUMNS,
        r is Err ==> r == Err::<(), ImportError>(ImportError::TooFewColumns { found: columns }),
{
    if columns < RECORD_COLUMNS {
        Err(ImportError::TooFewColumns { found: columns })
    } else {
        Ok(())
    }
}

/// The parsed record: each column in order is checked to exist and then
/// parsed; the first that fails gives the error.
pub open spec fn record_of(f: Seq<String>, row: usize) -> Result<CsvRow, ImportError> {
    let missing = |c: usize| ImportError::MissingColumn { row, column: c };
    let invalid = |c: usize| ImportError::InvalidField { row, column: c };
    if f.len() < 1 {
        Err(missing(0))
    } else if parsed_i64(f[0]@) is None {
        Err(invalid(0))
    } else if f.len() < 2 {
        Err(missing(1))
    } else if parsed_date(f[1]@) is None {
        Err(invalid(1))
    } else if f.len() < 3 {
        Err(missing(2))
    } else if transaction_type_named(f[2]@) is None {
        Err(invalid(2))
    } else if f.len() < 5 {
        Err(missing((f.len()) as usize))
    } else if decimal_parsed(f[4]@) is None {
        Err(invalid(4))
    } else if f.len() < 6 {
        Err(missing(5))
    } else if decimal_parsed(f[5]@) is None {
        Err(invalid(5))
    } else if f.len() < 7 {
        Err(missing(6))
    } else if decimal_parsed(f[6]@) is None {
        Err(invalid(6))
    } else if f.len() < RECORD_COLUMNS {
        Err(missing(f.len() as usize))
    } else {
        Ok(
            CsvRow {
                transaction_no: parsed_i64(f[0]@)->Some_0,
                date: parsed_date(f[1]@)->Some_0,
                transaction_type: transaction_type_named(f[2]@)->Some_0,
                symbol: f[3],
                quantity: decimal_parsed(f[4]@)->Some_0,
                price: decimal_parsed(f[5]@)->Some_0,
                fees: decimal_parsed(f[6]@)->Some_0,
                broker: f[7],
                alternative_symbol: f[8],
                transaction_currency: f[9],
            },
        )
    }
}

/// Parses the fields of the record on row `row`.
pub fn parse_record(fields: &Vec<String>, row: usize) -> (r: Result<CsvRow, ImportError>)
    ensures
        r == record_of(fields@, row),
        r matches Ok(c) ==> c.wf(),
{
    let n = fields.len();
    if n < 1 {
        return Err(ImportError::MissingColumn { row, column: 0 });
    }
    let transaction_no = match parse_i64_text(fields[0].as_str()) {
        Some(x) => x,
        None => return Err(ImportError::InvalidField { row, column: 0 }),
    };
    if n < 2 {
        return Err(ImportError::MissingColumn { row, column: 1 });
    }
    let date = match parse_date(fields[1].as_str()) {
        Some(x) => x,
        None => return Err(ImportError::InvalidField { row, column: 1 }),
    };
    if n < 3 {
        return Err(ImportError::MissingColumn { row, column: 2 });
    }
    let transaction_type = match TransactionType::parse_str(fields[2].as_str()) {
        Ok(x) => x,
        Err(_) => return Err(ImportError::InvalidField { row, column: 2 }),
    };
    if n < 5 {
        return Err(ImportError::MissingColumn { row, column: n });
    }
    let quantity = match parse_decimal(fields[4].as_str()) {
        Some(x) => x,
        None => return Err(ImportError::InvalidField { row, column: 4 }),
    };
    if n < 6 {
        return Err(ImportError::MissingColumn { row, column: 5 });
    }
    let price = match parse_decimal(fields[5].as_str()) {
        Some(x) => x,
        None => return Err(ImportError::InvalidField { row, column: 5 }),
    };
    if n < 7 {
        return Err(ImportError::MissingColumn { row, column: 6 });
    }
    let fees = match parse_decimal(fields[6].as_str()) {
        Some(x) => x,
        None => return Err(ImportError::InvalidField { row, column: 6 }),
    };
    if n < RECORD_COLUMNS {
        return Err(ImportError::MissingColumn { row, column: n });
    }
    Ok(
        CsvRow {
            transaction_no,
            date,
            transaction_type,
            symbol: fields[3].clone(),
            quantity,
            price,
            fees,
            broker: fields[7].clone(),
            alternative_symbol: fields[8].clone(),
            transaction_currency: fields[9].clone(),
        },
    )
}

/// Whether a text is among the views of a list.
pub open spec fn listed(list: Seq<String>, s: Seq<char>) -> bool {
    exists|i: int| 0 <= i < list.len() && list[i]@ == s
}

pub fn contains_text(list: &Vec<String>, s: &str) -> (r: bool)
    ensures
        r == listed(list@, s@),
{
    let mut i: usize = 0;
    while i < list.len()
        invariant
            0 <= i <= list@.len(),
            forall|j: int| 0 <= j < i ==> list@[j]@ != s@,
        decreases list.len() - i,
    {
        if text_is(list[i].as_str(), s) {
            return true;
        }
        i = i + 1;
    }
    false
}

/// The symbols that a record refers to: its symbol column and a non-empty
/// alternative symbol column.
pub open spec fn refers_to(rec: Seq<String>, s: Seq<char>) -> bool {
    (rec.len() > 3 && rec[3]@ == s) || (rec.len() > 8 && rec[8]@.len() > 0 && rec[8]@ == s)
}

pub open spec fn distinct_texts(list: Seq<String>) -> bool {
    forall|i: int, j: int| 0 <= i < j < list.len() ==> list[i]@ != list[j]@
}

/// Every distinct symbol that the records refer to, each once.
pub fn collect_symbols(records: &Vec<Vec<String>>) -> (r: Vec<String>)
    ensures
        distinct_texts(r@),
        forall|s: Seq<char>|
            listed(r@, s) <==> exists|k: int| 0 <= k < records@.len() && refers_to(#[trigger] records@[k]@, s),
{
    let mut out: Vec<String> = Vec::new();
    let mut k: usize = 0;
    while k < records.len()
        invariant
            0 <= k <= records@.len(),
            distinct_texts(out@),
            forall|s: Seq<char>|
                listed(out@, s) <==> exists|m: int| 0 <= m < k && refers_to(#[trigger] records@[m]@, s),
        decreases records.len() - k,
    {
        let rec = &records[k];
        let ghost before = out@;
        if rec.len() > 3 && !contains_text(&out, rec[3].as_str()) {
            out.push(rec[3].clone());
        }
        let ghost middle = out@;
        if rec.len() > 8 && !rec[8].as_str().is_empty() && !contains_text(&out, rec[8].as_str()) {
            out.push(rec[8].clone());
        }
        proof {
            assert forall|s: Seq<char>|
                listed(out@, s) <==> exists|m: int| 0 <= m < k + 1 && refers_to(#[trigger] records@[m]@, s) by {
                if listed(out@, s) {
                    let i = choose|i: int| 0 <= i < out@.len() && out@[i]@ == s;
                    if i < before.len() {
                        assert(listed(before, s));
                        let m = choose|m: int| 0 <= m < k && refers_to(#[trigger] records@[m]@, s);
                        assert(0 <= m < k + 1 && refers_to(records@[m]@, s));
                    } else {
                        assert(refers_to(records@[k as int]@, s));
                    }
                }
                if exists|m: int| 0 <= m < k + 1 && refers_to(#[trigger] records@[m]@, s) {
                    let m = choose|m: int| 0 <= m < k + 1 && refers_to(#[trigger] records@[m]@, s);
                    if m < k {
                        assert(listed(before, s));
                        let i = choose|i: int| 0 <= i < before.len() && before[i]@ == s;
                        assert(out@[i]@ == s);
                    } else {
                        if rec@.len() > 3 && rec@[3]@ == s {
                            if !listed(before, s) {
                                assert(middle[before.len() as int]@ == s);
                                assert(out@[before.len() as int]@ == s);
                            } else {
                                let i = choose|i: int| 0 <= i < before.len() && before[i]@ == s;
                                assert(out@[i]@ == s);
                            }
                        } else {
                            if !listed(middle, s) {
                                assert(out@[middle.len() as int]@ == s);
                            } else {
                                let i = choose|i: int| 0 <= i < middle.len() && middle[i]@ == s;
                                assert(out@[i]@ == s);
                            }
                        }
                    }
                }
            }
        }
        k = k + 1;
    }
    out
}

/// A ticker already known, under the symbol it was looked up by, with its
/// key in the store.
#[derive(Clone, Debug)]
pub struct KnownTicker {
    pub key: String,
    pub ticker: Ticker,
    pub id: i64,
}

/// A rate from a provider: the multiplier from `quote` to `base` on `date`.
#[derive(Clone, Debug)]
pub struct FxQuote {
    pub base: String,
    pub quote: String,
    pub date: Date,
    pub rate: Dec,
}

/// What an import works against: the tickers known, the rates stored with
/// imported transactions (fixed at their first import), the highest
/// transaction number stored, the base currency, the provider rates fetched
/// for this import, and the transactions already stored. `known` and
/// `stored_rates` are maps: no key occurs twice (see `wf`).
pub struct ImportContext {
    pub known: Vec<KnownTicker>,
    pub stored_rates: Vec<(i64, Dec)>,
    pub watermark: Option<i64>,
    pub base_currency: String,
    pub quotes: Vec<FxQuote>,
    pub history: Vec<Transaction>,
}

/// No two known tickers share a key.
pub open spec fn distinct_keys(known: Seq<KnownTicker>) -> bool {
    forall|i: int, j: int| 0 <= i < j < known.len() ==> known[i].key@ != known[j].key@
}

/// No two stored rates share a transaction number.
pub open spec fn distinct_numbers(stored: Seq<(i64, Dec)>) -> bool {
    forall|i: int, j: int| 0 <= i < j < stored.len() ==> stored[i].0 != stored[j].0
}

pub fn has_distinct_keys(known: &Vec<KnownTicker>) -> (r: bool)
    ensures
        r == distinct_keys(known@),
{
    let mut i: usize = 0;
    while i < known.len()
        invariant
            0 <= i <= known@.len(),
            forall|a: int, b: int| 0 <= a < i && a < b < known@.len() ==> known@[a].key@ != known@[b].key@,
        decreases known.len() - i,
    {
        let mut j: usize = i + 1;
        while j < known.len()
            invariant
                i < known@.len(),
                i + 1 <= j <= known@.len(),
                forall|a: int, b: int| 0 <= a < i && a < b < known@.len() ==> known@[a].key@ != known@[b].key@,
                forall|b: int| i < b < j ==> known@[i as int].key@ != known@[b].key@,
            decreases known.len() - j,
        {
            if text_is(known[i].key.as_str(), known[j].key.as_str()) {
                return false;
            }
            j = j + 1;
        }
        i = i + 1;
    }
    true
}

pub fn has_distinct_numbers(stored: &Vec<(i64, Dec)>) -> (r: bool)
    ensures
        r == distinct_numbers(stored@),
{
    let mut i: usize = 0;
    while i < stored.len()
        invariant
            0 <= i <= stored@.len(),
            forall|a: int, b: int| 0 <= a < i && a < b < stored@.len() ==> stored@[a].0 != stored@[b].0,
        decreases stored.len() - i,
    {
        let mut j: usize = i + 1;
        while j < stored.len()
            invariant
                i < stored@.len(),
                i + 1 <= j <= stored@.len(),
                forall|a: int, b: int| 0 <= a < i && a < b < stored@.len() ==> stored@[a].0 != stored@[b].0,
                forall|b: int| i < b < j ==> stored@[i as int].0 != stored@[b].0,
            decreases stored.len() - j,
        {
            if stored[i].0 == stored[j].0 {
                return false;
            }
            j = j + 1;
        }
        i = i + 1;
    }
    true
}

impl ImportContext {
    pub open spec fn wf(&self) -> bool {
        &&& distinct_keys(self.known@)
        &&& distinct_numbers(self.stored_rates@)
        &&& forall|i: int| 0 <= i < self.stored_rates@.len() ==> (#[trigger] self.stored_rates@[i]).1.wf()
        &&& forall|i: int| 0 <= i < self.quotes@.len() ==> (#[trigger] self.quotes@[i]).rate.wf()
        &&& forall|i: int| 0 <= i < self.history@.len() ==> (#[trigger] self.history@[i]).wf()
    }
}

/// Whether a row is at or below the watermark, that is, already imported.
pub open spec fn is_imported(transaction_no: i64, watermark: Option<i64>) -> bool {
    watermark matches Some(w) && transaction_no <= w
}

pub fn already_imported(transaction_no: i64, watermark: Option<i64>) -> (r: bool)
    ensures
        r == is_imported(transaction_no, watermark),
{
    match watermark {
        Some(w) => transaction_no <= w,
        None => false,
    }
}

/// The first known ticker at or after `i` under key `s`.
pub open spec fn find_key_from(known: Seq<KnownTicker>, s: Seq<char>, i: int) -> Option<int>
    decreases known.len() - i,
{
    if i < 0 || i >= known.len() {
        None
    } else if known[i].key@ == s {
        Some(i)
    } else {
        find_key_from(known, s, i + 1)
    }
}

/// The ticker of a row: under its symbol, else under its alternative symbol
/// where that is not empty.
pub open spec fn lookup_of(known: Seq<KnownTicker>, symbol: Seq<char>, alternative: Seq<char>) -> Option<int> {
    match find_key_from(known, symbol, 0) {
        Some(i) => Some(i),
        None => if alternative.len() > 0 {
            find_key_from(known, alternative, 0)
        } else {
            None
        },
    }
}

pub fn find_key(known: &Vec<KnownTicker>, s: &str) -> (r: Option<usize>)
    ensures
        r matches Some(i) ==> find_key_from(known@, s@, 0) == Some(i as int) && i < known@.len(),
        r is None ==> find_key_from(known@, s@, 0) is None,
{
    let mut i: usize = 0;
    while i < known.len()
        invariant
            0 <= i <= known@.len(),
            find_key_from(known@, s@, 0) == find_key_from(known@, s@, i as int),
        decreases known.len() - i,
    {
        if text_is(known[i].key.as_str(), s) {
            return Some(i);
        }
        i = i + 1;
    }
    None
}

pub fn lookup_ticker(known: &Vec<KnownTicker>, symbol: &str, alternative: &str) -> (r: Option<usize>)
    ensures
        r matches Some(i) ==> lookup_of(known@, symbol@, alternative@) == Some(i as int) && i < known@.len(),
        r is None ==> lookup_of(known@, symbol@, alternative@) is None,
{
    match find_key(known, symbol) {
        Some(i) => Some(i),
        None => if !alternative.is_empty() {
            find_key(known, alternative)
        } else {
            None
        },
    }
}

/// The first provider rate at or after `i` for the pair and date.
pub open spec fn find_quote_from(quotes: Seq<FxQuote>, base: Seq<char>, quote: Seq<char>, date: Date, i: int) -> Option<Dec>
    decreases quotes.len() - i,
{
    if i < 0 || i >= quotes.len() {
        None
    } else if quotes[i].base@ == base && quotes[i].quote@ == quote && quotes[i].date == date {
        Some(quotes[i].rate)
    } else {
        find_quote_from(quotes, base, quote, date, i + 1)
    }
}

pub fn find_quote(quotes: &Vec<FxQuote>, base: &str, quote: &str, date: Date) -> (r: Option<Dec>)
    ensures
        r == find_quote_from(quotes@, base@, quote@, date, 0),
{
    let mut i: usize = 0;
    while i < quotes.len()
        invariant
            0 <= i <= quotes@.len(),
            find_quote_from(quotes@, base@, quote@, date, 0) == find_quote_from(quotes@, base@, quote@, date, i as int),
        decreases quotes.len() - i,
    {
        let q = &quotes[i];
        if text_is(q.base.as_str(), base) && text_is(q.quote.as_str(), quote) && q.date == date {
            return Some(q.rate);
        }
        i = i + 1;
    }
    None
}

/// The first stored rate at or after `i` for a transaction number.
pub open spec fn find_stored_from(stored: Seq<(i64, Dec)>, no: i64, i: int) -> Option<Dec>
    decreases stored.len() - i,
{
    if i < 0 || i >= stored.len() {
        None
    } else if stored[i].0 == no {
        Some(stored[i].1)
    } else {
        find_stored_from(stored, no, i + 1)
    }
}

pub fn find_stored_rate(stored: &Vec<(i64, Dec)>, no: i64) -> (r: Option<Dec>)
    ensures
        r == find_stored_from(stored@, no, 0),
{
    let mut i: usize = 0;
    while i < stored.len()
        invariant
            0 <= i <= stored@.len(),
            find_stored_from(stored@, no, 0) == find_stored_from(stored@, no, i as int),
        decreases stored.len() - i,
    {
        if stored[i].0 == no {
            return Some(stored[i].1);
        }
        i = i + 1;
    }
    None
}

/// A buy or sell of the same ticker symbol, broker and currency.
pub open spec fn in_group(t: Transaction, symbol: Seq<char>, broker: Seq<char>, currency: Seq<char>) -> bool {
    &&& t.ticker.symbol@ == symbol
    &&& (t.transaction_type == TransactionType::Buy || t.transaction_type == TransactionType::Sell)
    &&& t.broker@ == broker
    &&& t.currency@ == currency
}

/// The amounts and signed quantities of the group's transactions, in order;
/// `None` where an amount cannot be computed.
pub open spec fn pairs_of(ts: Seq<Transaction>, symbol: Seq<char>, broker: Seq<char>, currency: Seq<char>) -> Option<(Seq<Dec>, Seq<Dec>)>
    decreases ts.len(),
{
    if ts.len() == 0 {
        Some((Seq::empty(), Seq::empty()))
    } else {
        match pairs_of(ts.drop_last(), symbol, broker, currency) {
            None => None,
            Some((a, q)) => {
                let t = ts.last();
                if in_group(t, symbol, broker, currency) {
                    match amount_of(t) {
                        None => None,
                        Some(x) => Some((a.push(x), q.push(signed_quantity_of(t)))),
                    }
                } else {
                    Some((a, q))
                }
            },
        }
    }
}

pub open spec fn all_txn_wf(ts: Seq<Transaction>) -> bool {
    forall|i: int| 0 <= i < ts.len() ==> (#[trigger] ts[i]).wf()
}

/// Appends the pair of one transaction where it belongs to the group;
/// `false` where its amount cannot be computed.
fn push_pair(
    t: &Transaction,
    symbol: &str,
    broker: &str,
    currency: &str,
    amounts: &mut Vec<Dec>,
    quantities: &mut Vec<Dec>,
) -> (ok: bool)
    requires
        t.wf(),
    ensures
        ok == !(in_group(*t, symbol@, broker@, currency@) && amount_of(*t) is None),
        ok && in_group(*t, symbol@, broker@, currency@) ==> final(amounts)@ == old(amounts)@.push(
            amount_of(*t)->Some_0,
        ) && final(quantities)@ == old(quantities)@.push(signed_quantity_of(*t)),
        ok && !in_group(*t, symbol@, broker@, currency@) ==> final(amounts)@ == old(amounts)@
            && final(quantities)@ == old(quantities)@,
        ok ==> (all_wf(old(amounts)@) ==> all_wf(final(amounts)@)) && (all_wf(old(quantities)@) ==> all_wf(final(quantities)@)),
{
    let is_trade = t.transaction_type == TransactionType::Buy || t.transaction_type
        == TransactionType::Sell;
    if text_is(t.ticker.symbol.as_str(), symbol) && is_trade && text_is(t.broker.as_str(), broker)
        && text_is(t.currency.as_str(), currency) {
        match t.get_amount() {
            Some(x) => {
                amounts.push(x);
                quantities.push(t.get_quantity());
                true
            },
            None => false,
        }
    } else {
        true
    }
}

fn gather_pairs(
    history: &Vec<Transaction>,
    done: &Vec<Transaction>,
    symbol: &str,
    broker: &str,
    currency: &str,
) -> (r: Option<(Vec<Dec>, Vec<Dec>)>)
    requires
        all_txn_wf(history@),
        all_txn_wf(done@),
    ensures
        r matches Some((a, q)) ==> pairs_of(history@ + done@, symbol@, broker@, currency@) == Some((a@, q@))
            && all_wf(a@) && all_wf(q@),
        r is None ==> pairs_of(history@ + done@, symbol@, broker@, currency@) is None,
{
    let ghost ts = history@ + done@;
    let mut amounts: Vec<Dec> = Vec::new();
    let mut quantities: Vec<Dec> = Vec::new();
    let mut j: usize = 0;
    proof {
        assert(ts.take(0) =~= Seq::<Transaction>::empty());
    }
    while j < history.len()
        invariant
            ts == history@ + done@,
            all_txn_wf(history@),
            0 <= j <= history@.len(),
            pairs_of(ts.take(j as int), symbol@, broker@, currency@) == Some((amounts@, quantities@)),
            all_wf(amounts@),
            all_wf(quantities@),
        decreases history.len() - j,
    {
        proof {
            assert(ts.take(j + 1).drop_last() =~= ts.take(j as int));
            assert(ts.take(j + 1).last() == history@[j as int]);
        }
        if !push_pair(&history[j], symbol, broker, currency, &mut amounts, &mut quantities) {
            proof {
                lemma_pairs_none_stays(ts, symbol@, broker@, currency@, j + 1, ts.len() as int);
                assert(ts.take(ts.len() as int) =~= ts);
            }
            return None;
        }
        j = j + 1;
    }
    let mut k: usize = 0;
    while k < done.len()
        invariant
            ts == history@ + done@,
            all_txn_wf(done@),
            j == history@.len(),
            0 <= k <= done@.len(),
            pairs_of(ts.take(j + k), symbol@, broker@, currency@) == Some((amounts@, quantities@)),
            all_wf(amounts@),
            all_wf(quantities@),
        decreases done.len() - k,
    {
        proof {
            assert(ts.take(j + k + 1).drop_last() =~= ts.take(j + k));
            assert(ts.take(j + k + 1).last() == done@[k as int]);
        }
        if !push_pair(&done[k], symbol, broker, currency, &mut amounts, &mut quantities) {
            proof {
                lemma_pairs_none_stays(ts, symbol@, broker@, currency@, j + k + 1, ts.len() as int);
                assert(ts.take(ts.len() as int) =~= ts);
            }
            return None;
        }
        k = k + 1;
    }
    proof {
        assert(ts.take(j + k) =~= ts);
    }
    Some((amounts, quantities))
}

pub proof fn lemma_pairs_none_stays(ts: Seq<Transaction>, symbol: Seq<char>, broker: Seq<char>, currency: Seq<char>, j: int, k: int)
    requires
        0 <= j <= k <= ts.len(),
        pairs_of(ts.take(j), symbol, broker, currency) is None,
    ensures
        pairs_of(ts.take(k), symbol, broker, currency) is None,
    decreases k - j,
{
    if j < k {
        lemma_pairs_none_stays(ts, symbol, broker, currency, j, k - 1);
        assert(ts.take(k).drop_last() =~= ts.take(k - 1));
    }
}

/// The rate that converts the row's price into the ticker's currency, and
/// the price so converted.
pub open spec fn converted_price(ctx: ImportContext, r: CsvRow, currency: Seq<char>, row: usize) -> Result<Dec, ImportError> {
    let txn_currency = if r.transaction_currency@.len() == 0 { currency } else { r.transaction_currency@ };
    if txn_currency == currency {
        Ok(r.price)
    } else {
        match find_quote_from(ctx.quotes@, currency, txn_currency, r.date, 0) {
            None => Err(ImportError::RateUnavailable { row }),
            Some(x) => match product_of(r.price, x) {
                None => Err(ImportError::AmountOverflow { row }),
                Some(p) => Ok(p),
            },
        }
    }
}

/// The rate from the ticker's currency to the base currency: the one stored
/// with the transaction number, else one for equal currencies, else the
/// provider's for the date.
pub open spec fn base_rate(ctx: ImportContext, r: CsvRow, currency: Seq<char>, row: usize) -> Result<Dec, ImportError> {
    match find_stored_from(ctx.stored_rates@, r.transaction_no, 0) {
        Some(x) => Ok(x),
        None => if currency == ctx.base_currency@ {
            Ok(one())
        } else {
            match find_quote_from(ctx.quotes@, currency, ctx.base_currency@, r.date, 0) {
                None => Err(ImportError::RateUnavailable { row }),
                Some(x) => Ok(x),
            }
        },
    }
}

/// Whether a transaction number is among those planned so far.
pub open spec fn number_planned(done: Seq<Transaction>, no: i64) -> bool {
    exists|j: int| 0 <= j < done.len() && done[j].transaction_no == no
}

pub fn already_planned(done: &Vec<Transaction>, no: i64) -> (r: bool)
    ensures
        r == number_planned(done@, no),
{
    let mut i: usize = 0;
    while i < done.len()
        invariant
            0 <= i <= done@.len(),
            forall|j: int| 0 <= j < i ==> done@[j].transaction_no != no,
        decreases done.len() - i,
    {
        if done[i].transaction_no == no {
            return true;
        }
        i = i + 1;
    }
    false
}

/// The transaction that a row becomes, with its position state and gains;
/// `None` for a row at or below the watermark, or whose number an earlier
/// row of this import already took (the store keeps the first).
pub open spec fn planned_row(ctx: ImportContext, done: Seq<Transaction>, r: CsvRow, row: usize) -> Result<Option<Transaction>, ImportError> {
    if is_imported(r.transaction_no, ctx.watermark) || number_planned(done, r.transaction_no) {
        Ok(None)
    } else {
        match lookup_of(ctx.known@, r.symbol@, r.alternative_symbol@) {
            None => Err(ImportError::UnknownSymbol { row }),
            Some(idx) => {
                let ticker = ctx.known@[idx].ticker;
                let currency = ticker.currency;
                match converted_price(ctx, r, currency@, row) {
                    Err(e) => Err(e),
                    Ok(price) => match base_rate(ctx, r, currency@, row) {
                        Err(e) => Err(e),
                        Ok(rate) => {
                            let t = Transaction {
                                transaction_no: r.transaction_no,
                                date: r.date,
                                transaction_type: r.transaction_type,
                                ticker,
                                broker: r.broker,
                                currency,
                                exchange_rate: rate,
                                quantity: r.quantity,
                                price,
                                fees: r.fees,
                                position_state: None,
                                transaction_gains: None,
                            };
                            match pairs_of(ctx.history@ + done, ticker.symbol@, r.broker@, currency@) {
                                None => Err(ImportError::AmountOverflow { row }),
                                Some((a, q)) => match amount_of(t) {
                                    None => Err(ImportError::AmountOverflow { row }),
                                    Some(x) => match position_state_of(a.push(x), q.push(signed_quantity_of(t))) {
                                        Err(e) => Err(ImportError::Accounting { row, error: e }),
                                        Ok(ps) => match gains_of(t, ps) {
                                            None => Err(ImportError::AmountOverflow { row }),
                                            Some(g) => Ok(Some(Transaction {
                                                position_state: Some(ps),
                                                transaction_gains: Some(g),
                                                ..t
                                            })),
                                        },
                                    },
                                },
                            }
                        },
                    },
                }
            },
        }
    }
}

pub proof fn lemma_found_quote_wf(quotes: Seq<FxQuote>, base: Seq<char>, quote: Seq<char>, date: Date, i: int)
    requires
        forall|j: int| 0 <= j < quotes.len() ==> (#[trigger] quotes[j]).rate.wf(),
    ensures
        find_quote_from(quotes, base, quote, date, i) matches Some(x) ==> x.wf(),
    decreases quotes.len() - i,
{
    if 0 <= i < quotes.len() {
        lemma_found_quote_wf(quotes, base, quote, date, i + 1);
    }
}

pub proof fn lemma_found_stored_wf(stored: Seq<(i64, Dec)>, no: i64, i: int)
    requires
        forall|j: int| 0 <= j < stored.len() ==> (#[trigger] stored[j]).1.wf(),
    ensures
        find_stored_from(stored, no, i) matches Some(x) ==> x.wf(),
    decreases stored.len() - i,
{
    if 0 <= i < stored.len() {
        lemma_found_stored_wf(stored, no, i + 1);
    }
}

fn convert_price(ctx: &ImportContext, r: &CsvRow, currency: &String, row: usize) -> (res: Result<Dec, ImportError>)
    requires
        ctx.wf(),
        r.wf(),
    ensures
        res == converted_price(*ctx, *r, currency@, row),
        res matches Ok(p) ==> p.wf(),
{
    let txn_currency = if r.transaction_currency.as_str().is_empty() {
        currency.clone()
    } else {
        r.transaction_currency.clone()
    };
    if text_is(txn_currency.as_str(), currency.as_str()) {
        Ok(r.price)
    } else {
        proof {
            lemma_found_quote_wf(ctx.quotes@, currency@, txn_currency@, r.date, 0);
        }
        match find_quote(&ctx.quotes, currency.as_str(), txn_currency.as_str(), r.date) {
            None => Err(ImportError::RateUnavailable { row }),
            Some(x) => match r.price.checked_mul(x) {
                None => Err(ImportError::AmountOverflow { row }),
                Some(p) => Ok(p),
            },
        }
    }
}

fn rate_to_base(ctx: &ImportContext, r: &CsvRow, currency: &String, row: usize) -> (res: Result<Dec, ImportError>)
    requires
        ctx.wf(),
    ensures
        res == base_rate(*ctx, *r, currency@, row),
        res matches Ok(x) ==> x.wf(),
{
    proof {
        lemma_found_stored_wf(ctx.stored_rates@, r.transaction_no, 0);
        lemma_found_quote_wf(ctx.quotes@, currency@, ctx.base_currency@, r.date, 0);
    }
    match find_stored_rate(&ctx.stored_rates, r.transaction_no) {
        Some(x) => Ok(x),
        None => if text_is(currency.as_str(), ctx.base_currency.as_str()) {
            Ok(Dec::from_parts(1, 0).unwrap())
        } else {
            match find_quote(&ctx.quotes, currency.as_str(), ctx.base_currency.as_str(), r.date) {
                None => Err(ImportError::RateUnavailable { row }),
                Some(x) => Ok(x),
            }
        },
    }
}

/// The transaction that one row becomes, given those planned before it.
pub fn plan_row(ctx: &ImportContext, done: &Vec<Transaction>, r: &CsvRow, row: usize) -> (res: Result<Option<Transaction>, ImportError>)
    requires
        ctx.wf(),
        all_txn_wf(done@),
        r.wf(),
    ensures
        res == planned_row(*ctx, done@, *r, row),
        res matches Ok(Some(t)) ==> t.wf(),
{
    if already_imported(r.transaction_no, ctx.watermark) || already_planned(done, r.transaction_no) {
        return Ok(None);
    }
    let idx = match lookup_ticker(&ctx.known, r.symbol.as_str(), r.alternative_symbol.as_str()) {
        Some(i) => i,
        None => return Err(ImportError::UnknownSymbol { row }),
    };
    let ticker = ctx.known[idx].ticker.copied();
    let currency = ticker.currency.clone();
    let price = match convert_price(ctx, r, &currency, row) {
        Ok(p) => p,
        Err(e) => return Err(e),
    };
    let rate = match rate_to_base(ctx, r, &currency, row) {
        Ok(x) => x,
        Err(e) => return Err(e),
    };
    let (mut amounts, mut quantities) = match gather_pairs(&ctx.history, done, ticker.symbol.as_str(), r.broker.as_str(), currency.as_str()) {
        Some(p) => p,
        None => return Err(ImportError::AmountOverflow { row }),
    };
    let mut t = Transaction {
        transaction_no: r.transaction_no,
        date: r.date,
        transaction_type: r.transaction_type,
        ticker,
        broker: r.broker.clone(),
        currency,
        exchange_rate: rate,
        quantity: r.quantity,
        price,
        fees: r.fees,
        position_state: None,
        transaction_gains: None,
    };
    let amount = match t.get_amount() {
        Some(x) => x,
        None => return Err(ImportError::AmountOverflow { row }),
    };
    amounts.push(amount);
    quantities.push(t.get_quantity());
    let ps = match calculate_position_state(amounts, quantities) {
        Ok(ps) => ps,
        Err(e) => return Err(ImportError::Accounting { row, error: e }),
    };
    let gains = match calculate_transaction_gains(&t, &ps) {
        Some(g) => g,
        None => return Err(ImportError::AmountOverflow { row }),
    };
    t.set_position_state(Some(ps));
    t.set_transaction_gains(Some(gains));
    Ok(Some(t))
}

/// The transactions that the first `n` rows become; rows count from 1.
pub open spec fn plan_of(ctx: ImportContext, rows: Seq<CsvRow>, n: nat) -> Result<Seq<Transaction>, ImportError>
    decreases n,
{
    if n == 0 {
        Ok(Seq::empty())
    } else {
        match plan_of(ctx, rows, (n - 1) as nat) {
            Err(e) => Err(e),
            Ok(done) => match planned_row(ctx, done, rows[n - 1], n as usize) {
                Err(e) => Err(e),
                Ok(None) => Ok(done),
                Ok(Some(t)) => Ok(done.push(t)),
            },
        }
    }
}

pub proof fn lemma_plan_err_stays(ctx: ImportContext, rows: Seq<CsvRow>, n: nat, m: nat)
    requires
        n <= m,
        plan_of(ctx, rows, n) is Err,
    ensures
        plan_of(ctx, rows, m) == plan_of(ctx, rows, n),
    decreases m - n,
{
    if n < m {
        lemma_plan_err_stays(ctx, rows, n, (m - 1) as nat);
    }
}

/// Turns the parsed rows, in file order, into the transactions to store:
/// rows at or below the watermark are skipped, every other row is resolved
/// to its ticker and rates and replayed with the earlier trades of its
/// ticker, broker and currency. Any failure stops the whole import.
pub fn plan_import(ctx: &ImportContext, rows: &Vec<CsvRow>) -> (res: Result<Vec<Transaction>, ImportError>)
    requires
        ctx.wf(),
        forall|i: int| 0 <= i < rows@.len() ==> (#[trigger] rows@[i]).wf(),
        rows@.len() < usize::MAX,
    ensures
        res matches Ok(ts) ==> plan_of(*ctx, rows@, rows@.len()) == Ok::<_, ImportError>(ts@),
        res matches Err(e) ==> plan_of(*ctx, rows@, rows@.len()) == Err::<Seq<Transaction>, _>(e),
{
    let mut done: Vec<Transaction> = Vec::new();
    let mut k: usize = 0;
    proof {
        assert(done@ =~= Seq::<Transaction>::empty());
    }
    while k < rows.len()
        invariant
            ctx.wf(),
            forall|i: int| 0 <= i < rows@.len() ==> (#[trigger] rows@[i]).wf(),
            rows@.len() < usize::MAX,
            0 <= k <= rows@.len(),
            plan_of(*ctx, rows@, k as nat) == Ok::<_, ImportError>(done@),
            all_txn_wf(done@),
        decreases rows.len() - k,
    {
        match plan_row(ctx, &done, &rows[k], k + 1) {
            Err(e) => {
                proof {
                    lemma_plan_err_stays(*ctx, rows@, (k + 1) as nat, rows@.len());
                }
                return Err(e);
            },
            Ok(None) => {},
            Ok(Some(t)) => {
                done.push(t);
            },
        }
        k = k + 1;
    }
    Ok(done)
}

/// Every row that a successful plan did not skip as already imported
/// became a transaction with the row's number.
pub proof fn lemma_plan_covers_rows(ctx: ImportContext, rows: Seq<CsvRow>, n: nat)
    requires
        n <= rows.len(),
        plan_of(ctx, rows, n) is Ok,
    ensures
        forall|i: int|
            0 <= i < n ==> is_imported(#[trigger] rows[i].transaction_no, ctx.watermark) || exists|j: int|
                0 <= j < plan_of(ctx, rows, n)->Ok_0.len() && plan_of(ctx, rows, n)->Ok_0[j].transaction_no
                    == rows[i].transaction_no,
    decreases n,
{
    if n > 0 {
        let m = (n - 1) as nat;
        if plan_of(ctx, rows, m) is Err {
            lemma_plan_err_stays(ctx, rows, m, n);
        }
        lemma_plan_covers_rows(ctx, rows, m);
        let before = plan_of(ctx, rows, m)->Ok_0;
        let after = plan_of(ctx, rows, n)->Ok_0;
        assert forall|i: int|
            0 <= i < n implies is_imported(#[trigger] rows[i].transaction_no, ctx.watermark) || exists|j: int|
                0 <= j < after.len() && after[j].transaction_no == rows[i].transaction_no by {
            if i < m {
                if !is_imported(rows[i].transaction_no, ctx.watermark) {
                    let j = choose|j: int|
                        0 <= j < before.len() && before[j].transaction_no == rows[i].transaction_no;
                    assert(after[j] == before[j]);
                }
            } else if !is_imported(rows[i].transaction_no, ctx.watermark) {
                if number_planned(before, rows[i].transaction_no) {
                    let j = choose|j: int|
                        0 <= j < before.len() && before[j].transaction_no == rows[i].transaction_no;
                    assert(after[j] == before[j]);
                } else {
                    assert(after[before.len() as int].transaction_no == rows[i].transaction_no);
                }
            }
        }
    }
}

/// An import never plans a transaction number twice, nor one at or below
/// the watermark: stored with insert-or-ignore, no row is duplicated.
pub proof fn lemma_plan_numbers_fresh(ctx: ImportContext, rows: Seq<CsvRow>, n: nat)
    requires
        n <= rows.len(),
        plan_of(ctx, rows, n) is Ok,
    ensures
        forall|i: int, j: int|
            0 <= i < j < plan_of(ctx, rows, n)->Ok_0.len() ==> plan_of(ctx, rows, n)->Ok_0[i].transaction_no
                != plan_of(ctx, rows, n)->Ok_0[j].transaction_no,
        forall|i: int|
            0 <= i < plan_of(ctx, rows, n)->Ok_0.len() ==> !is_imported(
                #[trigger] plan_of(ctx, rows, n)->Ok_0[i].transaction_no,
                ctx.watermark,
            ),
    decreases n,
{
    if n > 0 {
        let m = (n - 1) as nat;
        if plan_of(ctx, rows, m) is Err {
            lemma_plan_err_stays(ctx, rows, m, n);
        }
        lemma_plan_numbers_fresh(ctx, rows, m);
        let before = plan_of(ctx, rows, m)->Ok_0;
        let after = plan_of(ctx, rows, n)->Ok_0;
        if after.len() > before.len() {
            let t = after[before.len() as int];
            assert(after == before.push(t));
            assert(!number_planned(before, t.transaction_no));
            assert forall|i: int, j: int| 0 <= i < j < after.len() implies after[i].transaction_no
                != after[j].transaction_no by {
                if j == before.len() {
                    assert(before[i] == after[i]);
                }
            }
        }
    }
}

/// Rows that are all at or below the watermark plan to nothing.
pub proof fn lemma_plan_below_watermark(ctx: ImportContext, rows: Seq<CsvRow>, n: nat)
    requires
        n <= rows.len(),
        forall|i: int| 0 <= i < rows.len() ==> is_imported(#[trigger] rows[i].transaction_no, ctx.watermark),
    ensures
        plan_of(ctx, rows, n) == Ok::<_, ImportError>(Seq::<Transaction>::empty()),
    decreases n,
{
    if n > 0 {
        lemma_plan_below_watermark(ctx, rows, (n - 1) as nat);
        assert(is_imported(rows[n - 1].transaction_no, ctx.watermark));
    }
}

/// Importing is idempotent: after the transactions of a successful import
/// are stored, the stored watermark is at or above each of their numbers and
/// the earlier watermark, and importing the same rows again stores nothing.
pub proof fn lemma_import_is_idempotent(
    ctx: ImportContext,
    rows: Seq<CsvRow>,
    stored: Seq<Transaction>,
    again: ImportContext,
)
    requires
        plan_of(ctx, rows, rows.len()) == Ok::<_, ImportError>(stored),
        again.watermark matches Some(w) && (ctx.watermark matches Some(w0) ==> w0 <= w) && forall|j: int|
            0 <= j < stored.len() ==> (#[trigger] stored[j]).transaction_no <= w,
    ensures
        plan_of(again, rows, rows.len()) == Ok::<_, ImportError>(Seq::<Transaction>::empty()),
{
    lemma_plan_covers_rows(ctx, rows, rows.len());
    let w = again.watermark->Some_0;
    assert forall|i: int| 0 <= i < rows.len() implies is_imported(#[trigger] rows[i].transaction_no, again.watermark) by {
        if !is_imported(rows[i].transaction_no, ctx.watermark) {
            let j = choose|j: int| 0 <= j < stored.len() && stored[j].transaction_no == rows[i].transaction_no;
            assert(stored[j].transaction_no <= w);
        }
    }
    lemma_plan_below_watermark(again, rows, rows.len());
}

/// The symbols that no known ticker is filed under, in order.
pub open spec fn unknown_symbols(symbols: Seq<String>, known: Seq<KnownTicker>) -> Seq<String>
    decreases symbols.len(),
{
    if symbols.len() == 0 {
        Seq::empty()
    } else {
        let before = unknown_symbols(symbols.drop_last(), known);
        if find_key_from(known, symbols.last()@, 0) is None {
            before.push(symbols.last())
        } else {
            before
        }
    }
}

/// The symbols that still have to be resolved by a provider.
pub fn symbols_to_resolve(symbols: &Vec<String>, known: &Vec<KnownTicker>) -> (r: Vec<String>)
    ensures
        r@ == unknown_symbols(symbols@, known@),
{
    let mut out: Vec<String> = Vec::new();
    let mut i: usize = 0;
    while i < symbols.len()
        invariant
            0 <= i <= symbols@.len(),
            out@ == unknown_symbols(symbols@.take(i as int), known@),
        decreases symbols.len() - i,
    {
        proof {
            assert(symbols@.take(i + 1).drop_last() =~= symbols@.take(i as int));
            assert(symbols@.take(i + 1).last() == symbols@[i as int]);
        }
        if find_key(known, symbols[i].as_str()).is_none() {
            out.push(symbols[i].clone());
        }
        i = i + 1;
    }
    proof {
        assert(symbols@.take(symbols@.len() as int) =~= symbols@);
    }
    out
}

/// A rate that an import needs from a provider: the multiplier from `quote`
/// to `base` on `date`.
#[derive(Clone, Debug)]
pub struct RateRequest {
    pub base: String,
    pub quote: String,
    pub date: Date,
}

/// The provider rates that one row needs: the conversion of its price into
/// the ticker's currency where it is given in another, and the rate to the
/// base currency where none is stored and the currencies differ. Rows at or
/// below the watermark or without a known ticker need none.
pub open spec fn row_requests(ctx: ImportContext, r: CsvRow) -> Seq<(Seq<char>, Seq<char>, Date)> {
    if is_imported(r.transaction_no, ctx.watermark) {
        Seq::empty()
    } else {
        match lookup_of(ctx.known@, r.symbol@, r.alternative_symbol@) {
            None => Seq::empty(),
            Some(idx) => {
                let currency = ctx.known@[idx].ticker.currency@;
                let txn_currency = if r.transaction_currency@.len() == 0 { currency } else { r.transaction_currency@ };
                let first: Seq<(Seq<char>, Seq<char>, Date)> = if txn_currency != currency {
                    seq![(currency, txn_currency, r.date)]
                } else {
                    Seq::empty()
                };
                let second: Seq<(Seq<char>, Seq<char>, Date)> = if find_stored_from(ctx.stored_rates@, r.transaction_no, 0) is None
                    && currency != ctx.base_currency@ {
                    seq![(currency, ctx.base_currency@, r.date)]
                } else {
                    Seq::empty()
                };
                first + second
            },
        }
    }
}

pub open spec fn requests_of(ctx: ImportContext, rows: Seq<CsvRow>) -> Seq<(Seq<char>, Seq<char>, Date)>
    decreases rows.len(),
{
    if rows.len() == 0 {
        Seq::empty()
    } else {
        requests_of(ctx, rows.drop_last()) + row_requests(ctx, rows.last())
    }
}

pub open spec fn request_view(q: RateRequest) -> (Seq<char>, Seq<char>, Date) {
    (q.base@, q.quote@, q.date)
}

/// The provider rates that planning the rows will look up, in row order.
pub fn rate_requests(ctx: &ImportContext, rows: &Vec<CsvRow>) -> (r: Vec<RateRequest>)
    ensures
        r@.map_values(|q: RateRequest| request_view(q)) == requests_of(*ctx, rows@),
{
    let mut out: Vec<RateRequest> = Vec::new();
    let mut k: usize = 0;
    while k < rows.len()
        invariant
            0 <= k <= rows@.len(),
            out@.map_values(|q: RateRequest| request_view(q)) == requests_of(*ctx, rows@.take(k as int)),
        decreases rows.len() - k,
    {
        let r = &rows[k];
        let ghost before = out@;
        proof {
            assert(rows@.take(k + 1).drop_last() =~= rows@.take(k as int));
            assert(rows@.take(k + 1).last() == rows@[k as int]);
        }
        if !already_imported(r.transaction_no, ctx.watermark) {
            match lookup_ticker(&ctx.known, r.symbol.as_str(), r.alternative_symbol.as_str()) {
                None => {},
                Some(idx) => {
                    let currency = &ctx.known[idx].ticker.currency;
                    let txn_currency = if r.transaction_currency.as_str().is_empty() {
                        currency.clone()
                    } else {
                        r.transaction_currency.clone()
                    };
                    if !text_is(txn_currency.as_str(), currency.as_str()) {
                        out.push(RateRequest { base: currency.clone(), quote: txn_currency, date: r.date });
                    }
                    let ghost middle = out@;
                    if find_stored_rate(&ctx.stored_rates, r.transaction_no).is_none()
                        && !text_is(currency.as_str(), ctx.base_currency.as_str()) {
                        out.push(RateRequest { base: currency.clone(), quote: ctx.base_currency.clone(), date: r.date });
                    }
                },
            }
        }
        proof {
            assert(out@.map_values(|q: RateRequest| request_view(q)) =~= before.map_values(|q: RateRequest| request_view(q)) + row_requests(*ctx, rows@[k as int]));
        }
        k = k + 1;
    }
    proof {
        assert(rows@.take(rows@.len() as int) =~= rows@);
    }
    out
}

/// Importing twice gives the same holdings: when the second import starts
/// from the history that the first one stored, it stores nothing, so the
/// history after it, and the holdings projected from that history at the
/// same prices and rates, are those after the first import.
pub proof fn lemma_reimport_keeps_holdings(
    ctx: ImportContext,
    rows: Seq<CsvRow>,
    stored: Seq<Transaction>,
    again: ImportContext,
    positions: Seq<PositionInput>,
)
    requires
        plan_of(ctx, rows, rows.len()) == Ok::<_, ImportError>(stored),
        again.history@ == ctx.history@ + stored,
        again.watermark matches Some(w) && (ctx.watermark matches Some(w0) ==> w0 <= w) && forall|j: int|
            0 <= j < stored.len() ==> (#[trigger] stored[j]).transaction_no <= w,
    ensures
        plan_of(again, rows, rows.len()) matches Ok(second) && holdings_of(again.history@ + second, positions)
            == holdings_of(ctx.history@ + stored, positions),
{
    lemma_import_is_idempotent(ctx, rows, stored, again);
    assert(again.history@ + Seq::<Transaction>::empty() =~= ctx.history@ + stored);
}

} // verus!
