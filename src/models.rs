//! The records that the accounting works on.
use vstd::prelude::*;
use crate::decimal::{Dec, product_of, quotient_of, sum_of};

verus! {

/// Whether a text equals a fixed name.
pub fn text_is(s: &str, name: &str) -> (r: bool)
    ensures
        r == (s@ == name@),
{
    s.to_owned() == name.to_owned()
}

/// A text that names none of the values it should.
#[derive(Clone, Copy, Debug, PartialEq, Eq, Structural)]
pub enum ParseError {
    UnknownAssetType,
    UnknownApiProvider,
    UnknownTransactionType,
    UnknownCountryCode,
}

/// Units held, cost basis left in the FIFO queue, and the cost basis that
/// the last transaction consumed.
#[derive(Clone, Copy, Debug)]
pub struct PositionState {
    pub cumulative_units: Dec,
    pub cumulative_cost: Dec,
    pub cost_of_units_sold: Dec,
}

/// Gains that one transaction realizes.
#[derive(Clone, Copy, Debug)]
pub struct TransactionGains {
    pub realized_gains: Dec,
    pub dividends_collected: Dec,
}

#[derive(Clone, Copy, Debug, PartialEq, Eq, Structural)]
pub enum AssetType {
    Stock,
    Bond,
    ETF,
    MutualFund,
    Crypto,
    PreciousMetals,
    Other,
}

pub open spec fn asset_type_name(t: AssetType) -> Seq<char> {
    match t {
        AssetType::Stock => "Stock"@,
        AssetType::Bond => "Bond"@,
        AssetType::ETF => "ETF"@,
        AssetType::MutualFund => "MutualFund"@,
        AssetType::Crypto => "Crypto"@,
        AssetType::PreciousMetals => "PreciousMetals"@,
        AssetType::Other => "Other"@,
    }
}

pub open spec fn asset_type_named(s: Seq<char>) -> Option<AssetType> {
    if s == "Stock"@ {
        Some(AssetType::Stock)
    } else if s == "Bond"@ {
        Some(AssetType::Bond)
    } else if s == "ETF"@ {
        Some(AssetType::ETF)
    } else if s == "MutualFund"@ {
        Some(AssetType::MutualFund)
    } else if s == "Crypto"@ {
        Some(AssetType::Crypto)
    } else if s == "PreciousMetals"@ {
        Some(AssetType::PreciousMetals)
    } else if s == "Other"@ {
        Some(AssetType::Other)
    } else {
        None
    }
}

impl AssetType {
    pub fn parse_str(s: &str) -> (r: Result<AssetType, ParseError>)
        ensures
            r == (match asset_type_named(s@) {
                Some(t) => Ok(t),
                None => Err(ParseError::UnknownAssetType),
            }),
    {
        if text_is(s, "Stock") {
            Ok(AssetType::Stock)
        } else if text_is(s, "Bond") {
            Ok(AssetType::Bond)
        } else if text_is(s, "ETF") {
            Ok(AssetType::ETF)
        } else if text_is(s, "MutualFund") {
            Ok(AssetType::MutualFund)
        } else if text_is(s, "Crypto") {
            Ok(AssetType::Crypto)
        } else if text_is(s, "PreciousMetals") {
            Ok(AssetType::PreciousMetals)
        } else if text_is(s, "Other") {
            Ok(AssetType::Other)
        } else {
            Err(ParseError::UnknownAssetType)
        }
    }

    pub fn to_str(&self) -> (r: &str)
        ensures
            r@ == asset_type_name(*self),
    {
        match self {
            AssetType::Stock => "Stock",
            AssetType::Bond => "Bond",
            AssetType::ETF => "ETF",
            AssetType::MutualFund => "MutualFund",
            AssetType::Crypto => "Crypto",
            AssetType::PreciousMetals => "PreciousMetals",
            AssetType::Other => "Other",
        }
    }
}

/// Instrument metadata.
#[derive(Clone, Debug)]
pub struct Asset {
    pub name: String,
    pub asset_type: AssetType,
    pub isin: Option<String>,
    pub sector: Option<String>,
    pub industry: Option<String>,
}

impl Asset {
    /// A copy of the asset.
    pub fn copied(&self) -> (r: Asset)
        ensures
            r == *self,
    {
        Asset {
            name: self.name.clone(),
            asset_type: self.asset_type,
            isin: copy_text(&self.isin),
            sector: copy_text(&self.sector),
            industry: copy_text(&self.industry),
        }
    }
}

/// The quote providers, in the order of fallback.
#[derive(Clone, Copy, Debug, PartialEq, Eq, Structural)]
pub enum ApiProvider {
    AlphaVantage,
    Fmp,
    Marketstack,
}

pub open spec fn api_provider_name(p: ApiProvider) -> Seq<char> {
    match p {
        ApiProvider::AlphaVantage => "Alpha Vantage"@,
        ApiProvider::Fmp => "Financial Modeling Prep"@,
        ApiProvider::Marketstack => "Marketstack"@,
    }
}

pub open spec fn api_provider_named(s: Seq<char>) -> Option<ApiProvider> {
    if s == "Alpha Vantage"@ {
        Some(ApiProvider::AlphaVantage)
    } else if s == "Financial Modeling Prep"@ {
        Some(ApiProvider::Fmp)
    } else if s == "Marketstack"@ {
        Some(ApiProvider::Marketstack)
    } else {
        None
    }
}

impl ApiProvider {
    /// The provider that a stored name stands for.
    pub fn parse_str(s: &str) -> (r: Result<ApiProvider, ParseError>)
        ensures
            r == (match api_provider_named(s@) {
                Some(p) => Ok(p),
                None => Err(ParseError::UnknownApiProvider),
            }),
    {
        if text_is(s, "Alpha Vantage") {
            Ok(ApiProvider::AlphaVantage)
        } else if text_is(s, "Financial Modeling Prep") {
            Ok(ApiProvider::Fmp)
        } else if text_is(s, "Marketstack") {
            Ok(ApiProvider::Marketstack)
        } else {
            Err(ParseError::UnknownApiProvider)
        }
    }

    /// The name under which the provider is stored.
    pub fn to_str(&self) -> (r: &str)
        ensures
            r@ == api_provider_name(*self),
    {
        match self {
            ApiProvider::AlphaVantage => "Alpha Vantage",
            ApiProvider::Fmp => "Financial Modeling Prep",
            ApiProvider::Marketstack => "Marketstack",
        }
    }
}

/// A resolved instrument and its last known price.
#[derive(Clone, Debug)]
pub struct Ticker {
    pub symbol: String,
    pub name: String,
    pub currency: String,
    pub exchange: Option<String>,
    pub last_price: Option<Dec>,
    /// Seconds since the Unix epoch.
    pub last_price_updated_at: Option<i64>,
    pub last_api: ApiProvider,
}

pub fn copy_text(s: &Option<String>) -> (r: Option<String>)
    ensures
        r == *s,
{
    match s {
        Some(x) => Some(x.clone()),
        None => None,
    }
}

impl Ticker {
    /// A copy of the ticker.
    pub fn copied(&self) -> (r: Ticker)
        ensures
            r == *self,
    {
        Ticker {
            symbol: self.symbol.clone(),
            name: self.name.clone(),
            currency: self.currency.clone(),
            exchange: copy_text(&self.exchange),
            last_price: self.last_price,
            last_price_updated_at: self.last_price_updated_at,
            last_api: self.last_api,
        }
    }

    /// Records a new price together with the time of the update (`now`,
    /// in seconds since the Unix epoch).
    pub fn update_price(&mut self, price: Dec, now: i64)
        ensures
            final(self).last_price == Some(price),
            final(self).last_price_updated_at == Some(now),
            final(self).symbol == old(self).symbol,
            final(self).name == old(self).name,
            final(self).currency == old(self).currency,
            final(self).exchange == old(self).exchange,
            final(self).last_api == old(self).last_api,
    {
        self.last_price = Some(price);
        self.last_price_updated_at = Some(now);
    }
}

/// A calendar date.
#[derive(Clone, Copy, Debug, PartialEq, Eq, Structural)]
pub struct Date {
    pub year: i32,
    pub month: u32,
    pub day: u32,
}

#[derive(Clone, Copy, Debug, PartialEq, Eq, Structural)]
pub enum TransactionType {
    Buy,
    Sell,
    Div,
}

pub open spec fn transaction_type_name(t: TransactionType) -> Seq<char> {
    match t {
        TransactionType::Buy => "Buy"@,
        TransactionType::Sell => "Sell"@,
        TransactionType::Div => "Div"@,
    }
}

pub open spec fn transaction_type_named(s: Seq<char>) -> Option<TransactionType> {
    if s == "Buy"@ {
        Some(TransactionType::Buy)
    } else if s == "Sell"@ {
        Some(TransactionType::Sell)
    } else if s == "Div"@ {
        Some(TransactionType::Div)
    } else {
        None
    }
}

impl TransactionType {
    pub fn parse_str(s: &str) -> (r: Result<TransactionType, ParseError>)
        ensures
            r == (match transaction_type_named(s@) {
                Some(t) => Ok(t),
                None => Err(ParseError::UnknownTransactionType),
            }),
    {
        if text_is(s, "Buy") {
            Ok(TransactionType::Buy)
        } else if text_is(s, "Sell") {
            Ok(TransactionType::Sell)
        } else if text_is(s, "Div") {
            Ok(TransactionType::Div)
        } else {
            Err(ParseError::UnknownTransactionType)
        }
    }

    pub fn to_str(&self) -> (r: &str)
        ensures
            r@ == transaction_type_name(*self),
    {
        match self {
            TransactionType::Buy => "Buy",
            TransactionType::Sell => "Sell",
            TransactionType::Div => "Div",
        }
    }
}

/// One ledger entry, with the position state and gains cached at import.
#[derive(Clone, Debug)]
pub struct Transaction {
    pub transaction_no: i64,
    pub date: Date,
    pub transaction_type: TransactionType,
    pub ticker: Ticker,
    pub broker: String,
    pub currency: String,
    /// Multiplier from the ticker's currency to the base currency.
    pub exchange_rate: Dec,
    pub quantity: Dec,
    /// Unit price in the ticker's currency.
    pub price: Dec,
    pub fees: Dec,
    pub position_state: Option<PositionState>,
    pub transaction_gains: Option<TransactionGains>,
}

pub open spec fn one() -> Dec {
    Dec { mantissa: 1, scale: 0 }
}

/// The cash amount of a transaction in the base currency:
/// `price * (1 / exchange_rate) * quantity + fees`, negative for a buy.
pub open spec fn amount_of(t: Transaction) -> Option<Dec> {
    match quotient_of(one(), t.exchange_rate) {
        None => None,
        Some(inv) => match product_of(t.price, inv) {
            None => None,
            Some(p) => match product_of(p, t.quantity) {
                None => None,
                Some(v) => match sum_of(v, t.fees) {
                    None => None,
                    Some(a) => if t.transaction_type == TransactionType::Buy {
                        Some(a.spec_neg())
                    } else {
                        Some(a)
                    },
                },
            },
        },
    }
}

/// The signed quantity: units acquired by a buy are positive.
pub open spec fn signed_quantity_of(t: Transaction) -> Dec {
    if t.transaction_type == TransactionType::Buy {
        t.quantity
    } else {
        t.quantity.spec_neg()
    }
}

impl Transaction {
    pub open spec fn wf(&self) -> bool {
        &&& self.exchange_rate.wf()
        &&& self.quantity.wf()
        &&& self.price.wf()
        &&& self.fees.wf()
    }

    /// The signed cash amount; `None` for a zero exchange rate or where a
    /// value leaves the decimal range.
    pub fn get_amount(&self) -> (r: Option<Dec>)
        requires
            self.wf(),
        ensures
            r == amount_of(*self),
            r matches Some(a) ==> a.wf(),
    {
        let inv = match Dec::from_parts(1, 0).unwrap().checked_div(self.exchange_rate) {
            Some(x) => x,
            None => return None,
        };
        let p = match self.price.checked_mul(inv) {
            Some(x) => x,
            None => return None,
        };
        let v = match p.checked_mul(self.quantity) {
            Some(x) => x,
            None => return None,
        };
        let a = match v.checked_add(self.fees) {
            Some(x) => x,
            None => return None,
        };
        if self.transaction_type == TransactionType::Buy {
            Some(a.neg())
        } else {
            Some(a)
        }
    }

    pub fn get_quantity(&self) -> (r: Dec)
        requires
            self.wf(),
        ensures
            r == signed_quantity_of(*self),
            r.wf(),
    {
        if self.transaction_type == TransactionType::Buy {
            self.quantity
        } else {
            self.quantity.neg()
        }
    }

    pub fn set_position_state(&mut self, position_state: Option<PositionState>)
        ensures
            *final(self) == (Transaction { position_state, ..*old(self) }),
    {
        self.position_state = position_state;
    }

    pub fn set_transaction_gains(&mut self, transaction_gains: Option<TransactionGains>)
        ensures
            *final(self) == (Transaction { transaction_gains, ..*old(self) }),
    {
        self.transaction_gains = transaction_gains;
    }
}

/// A quote of one trading day.
#[derive(Clone, Debug)]
pub struct Quote {
    pub symbol: String,
    pub open: Dec,
    pub high: Dec,
    pub low: Dec,
    pub price: Dec,
    pub volume: i64,
    pub date: String,
    pub previous_close: Dec,
    pub change: Dec,
    pub change_percent: Dec,
}

/// A position as presented: quantity, value, cost and gains of one asset.
#[derive(Clone, Debug)]
pub struct Position {
    pub asset: Asset,
    pub quantity: Dec,
    pub price: Dec,
    pub market_value: Dec,
    pub cost_per_share: Dec,
    pub total_cost: Dec,
    pub unrealized_gain: Dec,
    pub unrealized_gain_percent: Dec,
    pub realized_gain: Dec,
    pub dividends_collected: Dec,
    pub total_gain: Dec,
}

impl Position {
    pub fn new(
        asset: Asset,
        quantity: Dec,
        price: Dec,
        market_value: Dec,
        cost_per_share: Dec,
        total_cost: Dec,
        unrealized_gain: Dec,
        unrealized_gain_percent: Dec,
        realized_gain: Dec,
        dividends_collected: Dec,
        total_gain: Dec,
    ) -> (r: Position)
        ensures
            r == (Position {
                asset,
                quantity,
                price,
                market_value,
                cost_per_share,
                total_cost,
                unrealized_gain,
                unrealized_gain_percent,
                realized_gain,
                dividends_collected,
                total_gain,
            }),
    {
        Position {
            asset,
            quantity,
            price,
            market_value,
            cost_per_share,
            total_cost,
            unrealized_gain,
            unrealized_gain_percent,
            realized_gain,
            dividends_collected,
            total_gain,
        }
    }
}

} // verus!
