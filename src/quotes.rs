//! What the quote providers return, and how it becomes a ticker or a price.
use vstd::prelude::*;
use crate::decimal::{Dec, decimal_parsed};
use crate::import::{parse_decimal, parse_i64_text, parsed_i64};
use crate::models::Quote;
use crate::models::{ApiProvider, ParseError, Ticker, text_is};

verus! {

pub open spec fn currency_of_country(code: Seq<char>) -> Option<Seq<char>> {
    if code == "US"@ {
        Some("USD"@)
    } else if code == "GB"@ {
        Some("GBP"@)
    } else if code == "JP"@ {
        Some("JPY"@)
    } else if code == "CN"@ {
        Some("CNY"@)
    } else if code == "HK"@ {
        Some("HKD"@)
    } else if code == "IN"@ {
        Some("INR"@)
    } else if code == "DE"@ {
        Some("EUR"@)
    } else if code == "FR"@ {
        Some("EUR"@)
    } else if code == "IT"@ {
        Some("EUR"@)
    } else if code == "ES"@ {
        Some("EUR"@)
    } else if code == "NL"@ {
        Some("EUR"@)
    } else if code == "BE"@ {
        Some("EUR"@)
    } else if code == "FI"@ {
        Some("EUR"@)
    } else if code == "AT"@ {
        Some("EUR"@)
    } else if code == "IE"@ {
        Some("EUR"@)
    } else if code == "CH"@ {
        Some("CHF"@)
    } else if code == "CA"@ {
        Some("CAD"@)
    } else if code == "AU"@ {
        Some("AUD"@)
    } else if code == "KR"@ {
        Some("KRW"@)
    } else if code == "BR"@ {
        Some("BRL"@)
    } else if code == "SE"@ {
        Some("SEK"@)
    } else if code == "SG"@ {
        Some("SGD"@)
    } else if code == "ZA"@ {
        Some("ZAR"@)
    } else if code == "MX"@ {
        Some("MXN"@)
    } else if code == "RU"@ {
        Some("RUB"@)
    } else if code == "SA"@ {
        Some("SAR"@)
    } else if code == "TR"@ {
        Some("TRY"@)
    } else if code == "TW"@ {
        Some("TWD"@)
    } else if code == "ID"@ {
        Some("IDR"@)
    } else if code == "TH"@ {
        Some("THB"@)
    } else if code == "MY"@ {
        Some("MYR"@)
    } else if code == "PL"@ {
        Some("PLN"@)
    } else if code == "NO"@ {
        Some("NOK"@)
    } else if code == "DK"@ {
        Some("DKK"@)
    } else if code == "AE"@ {
        Some("AED"@)
    } else if code == "AR"@ {
        Some("ARS"@)
    } else if code == "CL"@ {
        Some("CLP"@)
    } else if code == "NZ"@ {
        Some("NZD"@)
    } else {
        None
    }
}

/// The ISO currency of a stock exchange's country.
pub fn get_currency_from_country_code(country_code: &str) -> (r: Result<String, ParseError>)
    ensures
        r matches Ok(s) ==> currency_of_country(country_code@) == Some(s@),
        r is Err ==> currency_of_country(country_code@) is None && r == Err::<String, ParseError>(ParseError::UnknownCountryCode),
{
    if text_is(country_code, "US") {
        Ok("USD".to_owned())
    } else if text_is(country_code, "GB") {
        Ok("GBP".to_owned())
    } else if text_is(country_code, "JP") {
        Ok("JPY".to_owned())
    } else if text_is(country_code, "CN") {
        Ok("CNY".to_owned())
    } else if text_is(country_code, "HK") {
        Ok("HKD".to_owned())
    } else if text_is(country_code, "IN") {
        Ok("INR".to_owned())
    } else if text_is(country_code, "DE") {
        Ok("EUR".to_owned())
    } else if text_is(country_code, "FR") {
        Ok("EUR".to_owned())
    } else if text_is(country_code, "IT") {
        Ok("EUR".to_owned())
    } else if text_is(country_code, "ES") {
        Ok("EUR".to_owned())
    } else if text_is(country_code, "NL") {
        Ok("EUR".to_owned())
    } else if text_is(country_code, "BE") {
        Ok("EUR".to_owned())
    } else if text_is(country_code, "FI") {
        Ok("EUR".to_owned())
    } else if text_is(country_code, "AT") {
        Ok("EUR".to_owned())
    } else if text_is(country_code, "IE") {
        Ok("EUR".to_owned())
    } else if text_is(country_code, "CH") {
        Ok("CHF".to_owned())
    } else if text_is(country_code, "CA") {
        Ok("CAD".to_owned())
    } else if text_is(country_code, "AU") {
        Ok("AUD".to_owned())
    } else if text_is(country_code, "KR") {
        Ok("KRW".to_owned())
    } else if text_is(country_code, "BR") {
        Ok("BRL".to_owned())
    } else if text_is(country_code, "SE") {
        Ok("SEK".to_owned())
    } else if text_is(country_code, "SG") {
        Ok("SGD".to_owned())
    } else if text_is(country_code, "ZA") {
        Ok("ZAR".to_owned())
    } else if text_is(country_code, "MX") {
        Ok("MXN".to_owned())
    } else if text_is(country_code, "RU") {
        Ok("RUB".to_owned())
    } else if text_is(country_code, "SA") {
        Ok("SAR".to_owned())
    } else if text_is(country_code, "TR") {
        Ok("TRY".to_owned())
    } else if text_is(country_code, "TW") {
        Ok("TWD".to_owned())
    } else if text_is(country_code, "ID") {
        Ok("IDR".to_owned())
    } else if text_is(country_code, "TH") {
        Ok("THB".to_owned())
    } else if text_is(country_code, "MY") {
        Ok("MYR".to_owned())
    } else if text_is(country_code, "PL") {
        Ok("PLN".to_owned())
    } else if text_is(country_code, "NO") {
        Ok("NOK".to_owned())
    } else if text_is(country_code, "DK") {
        Ok("DKK".to_owned())
    } else if text_is(country_code, "AE") {
        Ok("AED".to_owned())
    } else if text_is(country_code, "AR") {
        Ok("ARS".to_owned())
    } else if text_is(country_code, "CL") {
        Ok("CLP".to_owned())
    } else if text_is(country_code, "NZ") {
        Ok("NZD".to_owned())
    } else {
        Err(ParseError::UnknownCountryCode)
    }
}

/// A global quote of Alpha Vantage; every field is text.
#[derive(Clone, Debug)]
pub struct AvGlobalQuoteDto {
    pub symbol: String,
    pub open: String,
    pub high: String,
    pub low: String,
    pub price: String,
    pub volume: String,
    pub latest_trading_day: String,
    pub previous_close: String,
    pub change: String,
    pub change_percent: String,
}

/// A symbol search match of Alpha Vantage.
#[derive(Clone, Debug)]
pub struct AvSymbolSearchDto {
    pub symbol: String,
    pub name: String,
    pub asset_type: String,
    pub region: String,
    pub market_open: String,
    pub market_close: String,
    pub timezone: String,
    pub currency: String,
    pub match_score: String,
}

impl AvSymbolSearchDto {
    pub fn to_ticker(&self) -> (r: Ticker)
        ensures
            r.symbol == self.symbol,
            r.name == self.name,
            r.currency == self.currency,
            r.exchange matches Some(e) && e@ == Seq::<char>::empty(),
            r.last_price is None,
            r.last_price_updated_at is None,
            r.last_api == ApiProvider::AlphaVantage,
    {
        Ticker {
            symbol: self.symbol.clone(),
            name: self.name.clone(),
            currency: self.currency.clone(),
            exchange: Some(String::new()),
            last_price: None,
            last_price_updated_at: None,
            last_api: ApiProvider::AlphaVantage,
        }
    }
}

/// A quote of Financial Modeling Prep.
#[derive(Clone, Debug)]
pub struct FmpQuoteDto {
    pub symbol: String,
    pub name: String,
    pub price: Dec,
    pub change_percentage: Dec,
    pub change: Dec,
    pub volume: i64,
    pub day_low: Dec,
    pub day_high: Dec,
    pub year_high: Dec,
    pub year_low: Dec,
    pub market_cap: Option<i64>,
    pub price_avg_50: Dec,
    pub price_avg_200: Dec,
    pub exchange: String,
    pub open: Dec,
    pub previous_close: Dec,
    pub timestamp: i64,
}

/// One day of Financial Modeling Prep's price history.
#[derive(Clone, Debug)]
pub struct FmpQuoteHistoryDto {
    pub symbol: String,
    pub date: String,
    pub price: Dec,
    pub volume: i64,
}

/// Frankfurter's rates of one currency on one date.
#[derive(Clone, Debug)]
pub struct FrankForexDto {
    pub amount: Dec,
    pub base: String,
    pub date: String,
    pub rates: Vec<(String, Dec)>,
}

/// A symbol search match of Financial Modeling Prep.
#[derive(Clone, Debug)]
pub struct FmpSearchSymbolDto {
    pub symbol: String,
    pub name: String,
    pub currency: String,
    pub exchange_full_name: String,
    pub exchange: String,
}

impl FmpSearchSymbolDto {
    pub fn to_ticker(&self) -> (r: Ticker)
        ensures
            r.symbol == self.symbol,
            r.name == self.name,
            r.currency == self.currency,
            r.exchange == Some(self.exchange),
            r.last_price is None,
            r.last_price_updated_at is None,
            r.last_api == ApiProvider::Fmp,
    {
        Ticker {
            symbol: self.symbol.clone(),
            name: self.name.clone(),
            currency: self.currency.clone(),
            exchange: Some(self.exchange.clone()),
            last_price: None,
            last_price_updated_at: None,
            last_api: ApiProvider::Fmp,
        }
    }
}

/// An end-of-day quote of Marketstack (the fields that the price needs).
#[derive(Clone, Debug)]
pub struct MarketstackQuoteDto {
    pub symbol: String,
    pub open: Dec,
    pub high: Dec,
    pub low: Dec,
    pub close: Dec,
    pub volume: Dec,
    pub exchange: String,
    pub date: String,
}

#[derive(Clone, Debug)]
pub struct DateInfo {
    pub date: String,
    pub timezone_type: i32,
    pub timezone: String,
}

#[derive(Clone, Debug)]
pub struct StockExchange {
    pub name: String,
    pub acronym: String,
    pub mic: String,
    pub country: Option<String>,
    pub country_code: String,
    pub city: String,
    pub website: String,
    pub operating_mic: String,
    pub oprt_sgmt: String,
    pub legal_entity_name: String,
    pub exchange_lei: String,
    pub market_category_code: String,
    pub exchange_status: String,
    pub date_creation: DateInfo,
    pub date_last_update: DateInfo,
    pub date_last_validation: DateInfo,
    pub date_expiry: Option<DateInfo>,
    pub comments: String,
}

/// A ticker as Marketstack describes it.
#[derive(Clone, Debug)]
pub struct MarketstackSearchSymbolDto {
    pub name: String,
    pub symbol: String,
    pub cik: String,
    pub isin: String,
    pub ein_employer_id: String,
    pub lei: String,
    pub series_id: String,
    pub item_type: String,
    pub sector: String,
    pub industry: String,
    pub sic_code: String,
    pub sic_name: String,
    pub stock_exchange: StockExchange,
}

impl MarketstackSearchSymbolDto {
    /// The ticker, with the currency of the exchange's country; an error for
    /// a country without a known currency.
    pub fn to_ticker(&self) -> (r: Result<Ticker, ParseError>)
        ensures
            currency_of_country(self.stock_exchange.country_code@) is None ==> r
                == Err::<Ticker, ParseError>(ParseError::UnknownCountryCode),
            currency_of_country(self.stock_exchange.country_code@) matches Some(c) ==> (
            r matches Ok(t) && t.symbol == self.symbol && t.name == self.name && t.currency@ == c
                && t.exchange == Some(self.stock_exchange.acronym) && t.last_price is None
                && t.last_price_updated_at is None && t.last_api == ApiProvider::Marketstack),
    {
        let currency = match get_currency_from_country_code(self.stock_exchange.country_code.as_str()) {
            Ok(c) => c,
            Err(e) => return Err(e),
        };
        Ok(
            Ticker {
                symbol: self.symbol.clone(),
                name: self.name.clone(),
                currency,
                exchange: Some(self.stock_exchange.acronym.clone()),
                last_price: None,
                last_price_updated_at: None,
                last_api: ApiProvider::Marketstack,
            },
        )
    }
}

/// The quote that an Alpha Vantage global quote describes; `None` where a
/// number field does not parse.
pub open spec fn quote_of_av(q: AvGlobalQuoteDto) -> Option<Quote> {
    match (decimal_parsed(q.open@), decimal_parsed(q.high@), decimal_parsed(q.low@), decimal_parsed(q.price@)) {
        (Some(open), Some(high), Some(low), Some(price)) => match (
            parsed_i64(q.volume@),
            decimal_parsed(q.previous_close@),
            decimal_parsed(q.change@),
            decimal_parsed(q.change_percent@),
        ) {
            (Some(volume), Some(previous_close), Some(change), Some(change_percent)) => Some(
                Quote {
                    symbol: q.symbol,
                    open,
                    high,
                    low,
                    price,
                    volume,
                    date: q.latest_trading_day,
                    previous_close,
                    change,
                    change_percent,
                },
            ),
            _ => None,
        },
        _ => None,
    }
}

impl Quote {
    pub fn from_av_quote(q: &AvGlobalQuoteDto) -> (r: Option<Quote>)
        ensures
            r == quote_of_av(*q),
    {
        let open = parse_decimal(q.open.as_str());
        let high = parse_decimal(q.high.as_str());
        let low = parse_decimal(q.low.as_str());
        let price = parse_decimal(q.price.as_str());
        let volume = parse_i64_text(q.volume.as_str());
        let previous_close = parse_decimal(q.previous_close.as_str());
        let change = parse_decimal(q.change.as_str());
        let change_percent = parse_decimal(q.change_percent.as_str());
        match (open, high, low, price, volume, previous_close, change, change_percent) {
            (Some(open), Some(high), Some(low), Some(price), Some(volume), Some(previous_close), Some(change), Some(change_percent)) => Some(
                Quote {
                    symbol: q.symbol.clone(),
                    open,
                    high,
                    low,
                    price,
                    volume,
                    date: q.latest_trading_day.clone(),
                    previous_close,
                    change,
                    change_percent,
                },
            ),
            _ => None,
        }
    }
}

/// The latest price in an Alpha Vantage quote, which holds it as text.
pub fn price_from_av_quote(quote: &AvGlobalQuoteDto) -> (r: Option<Dec>)
    ensures
        r == decimal_parsed(quote.price@),
        r matches Some(p) ==> p.wf(),
{
    Dec::parse(quote.price.as_str())
}

/// The price of the first Financial Modeling Prep quote.
pub fn price_from_fmp_quotes(quotes: &Vec<FmpQuoteDto>) -> (r: Option<Dec>)
    ensures
        quotes@.len() == 0 ==> r is None,
        quotes@.len() > 0 ==> r == Some(quotes@[0].price),
{
    if quotes.len() == 0 {
        None
    } else {
        Some(quotes[0].price)
    }
}

/// The closing price of the first Marketstack quote.
pub fn price_from_marketstack_quotes(quotes: &Vec<MarketstackQuoteDto>) -> (r: Option<Dec>)
    ensures
        quotes@.len() == 0 ==> r is None,
        quotes@.len() > 0 ==> r == Some(quotes@[0].close),
{
    if quotes.len() == 0 {
        None
    } else {
        Some(quotes[0].close)
    }
}

/// The ticker of the first Alpha Vantage match.
pub fn ticker_from_av_matches(matches: &Vec<AvSymbolSearchDto>) -> (r: Option<Ticker>)
    ensures
        matches@.len() == 0 ==> r is None,
        matches@.len() > 0 ==> (r matches Some(t) && t.symbol == matches@[0].symbol
            && t.name == matches@[0].name && t.currency == matches@[0].currency
            && (t.exchange matches Some(e) && e@ == Seq::<char>::empty()) && t.last_price is None
            && t.last_price_updated_at is None && t.last_api == ApiProvider::AlphaVantage),
{
    if matches.len() == 0 {
        None
    } else {
        Some(matches[0].to_ticker())
    }
}

/// The ticker of the first Financial Modeling Prep match.
pub fn ticker_from_fmp_matches(matches: &Vec<FmpSearchSymbolDto>) -> (r: Option<Ticker>)
    ensures
        matches@.len() == 0 ==> r is None,
        matches@.len() > 0 ==> (r matches Some(t) && t.symbol == matches@[0].symbol
            && t.name == matches@[0].name && t.currency == matches@[0].currency
            && t.exchange == Some(matches@[0].exchange) && t.last_price is None
            && t.last_price_updated_at is None && t.last_api == ApiProvider::Fmp),
{
    if matches.len() == 0 {
        None
    } else {
        Some(matches[0].to_ticker())
    }
}

/// The providers to try for a symbol: the preferred one first, then the
/// others in the fixed order Alpha Vantage, Financial Modeling Prep,
/// Marketstack.
pub open spec fn provider_order_of(preferred: ApiProvider) -> Seq<ApiProvider> {
    seq![preferred] + seq![ApiProvider::AlphaVantage, ApiProvider::Fmp, ApiProvider::Marketstack].filter(
        |p: ApiProvider| p != preferred,
    )
}

pub fn provider_order(preferred: ApiProvider) -> (r: Vec<ApiProvider>)
    ensures
        r@ == provider_order_of(preferred),
        r@.len() == 3,
        r@[0] == preferred,
        r@.no_duplicates(),
{
    let ghost all = seq![ApiProvider::AlphaVantage, ApiProvider::Fmp, ApiProvider::Marketstack];
    proof {
        reveal_with_fuel(Seq::filter, 4);
    }
    let mut r: Vec<ApiProvider> = Vec::new();
    r.push(preferred);
    match preferred {
        ApiProvider::AlphaVantage => {
            r.push(ApiProvider::Fmp);
            r.push(ApiProvider::Marketstack);
        },
        ApiProvider::Fmp => {
            r.push(ApiProvider::AlphaVantage);
            r.push(ApiProvider::Marketstack);
        },
        ApiProvider::Marketstack => {
            r.push(ApiProvider::AlphaVantage);
            r.push(ApiProvider::Fmp);
        },
    }
    proof {
        assert(all.filter(|p: ApiProvider| p != preferred) =~= r@.skip(1));
        assert(r@ =~= provider_order_of(preferred));
    }
    r
}

/// The next provider to ask for a symbol, given the answers so far (one per
/// provider of `order`, in order): none once a provider has answered with a
/// ticker or every provider has been asked.
pub fn next_provider(order: &Vec<ApiProvider>, answers: &Vec<Option<Ticker>>) -> (r: Option<ApiProvider>)
    ensures
        (exists|i: int| 0 <= i < answers@.len() && answers@[i] is Some) ==> r is None,
        (forall|i: int| 0 <= i < answers@.len() ==> answers@[i] is None) ==> r == (if answers@.len()
            < order@.len() {
            Some(order@[answers@.len() as int])
        } else {
            None
        }),
{
    let mut i: usize = 0;
    while i < answers.len()
        invariant
            0 <= i <= answers@.len(),
            forall|j: int| 0 <= j < i ==> answers@[j] is None,
        decreases answers.len() - i,
    {
        if answers[i].is_some() {
            return None;
        }
        i = i + 1;
    }
    if answers.len() < order.len() {
        Some(order[answers.len()])
    } else {
        None
    }
}

/// No provider resolved the symbol.
#[derive(Clone, Copy, Debug, PartialEq, Eq, Structural)]
pub struct TickerNotFound;

/// The first ticker among the providers' answers, taken in the order tried;
/// `TickerNotFound` only where every provider failed.
pub fn first_resolved(answers: Vec<Option<Ticker>>) -> (r: Result<Ticker, TickerNotFound>)
    ensures
        r is Err <==> forall|i: int| 0 <= i < answers@.len() ==> answers@[i] is None,
        r matches Ok(t) ==> exists|i: int|
            0 <= i < answers@.len() && answers@[i] == Some(t) && forall|j: int|
                0 <= j < i ==> answers@[j] is None,
{
    let mut results = answers;
    let ghost given = results@;
    let mut i: usize = 0;
    while i < results.len()
        invariant
            results@ == given,
            given == answers@,
            0 <= i <= results@.len(),
            forall|j: int| 0 <= j < i ==> results@[j] is None,
        decreases results.len() - i,
    {
        let present = match &results[i] {
            Some(_) => true,
            None => false,
        };
        if present {
            let found = results.remove(i);
            assert(found == given[i as int]);
            return match found {
                Some(t) => {
                    assert(given == answers@);
                    assert(answers@[i as int] == Some(t));
                    assert(!(answers@[i as int] is None));
                    Ok(t)
                },
                None => Err(TickerNotFound),
            };
        }
        i = i + 1;
    }
    Err(TickerNotFound)
}

} // verus!
