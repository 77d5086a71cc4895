use vstd::prelude::*;
use vstd::string::StringExecFns;

verus! {

/// Where an instrument is listed: its ticker and trading currency.
#[derive(Debug, PartialEq, Eq)]
pub struct Listing {
    pub ticker_symbol: String,
    pub currency: String,
}

/// The part of a quote snapshot the tool reads: the last traded price, as
/// decimal text.
#[derive(Debug, PartialEq, Eq)]
pub struct Quote {
    pub last: String,
}

/// A stock's guide snapshot: identity, its quote and its listing.
#[derive(Debug, PartialEq, Eq)]
pub struct AvanzaStockInfo {
    pub orderbook_id: String,
    pub name: String,
    pub isin: String,
    pub instrument_id: String,
    pub quote: Quote,
    pub listing: Listing,
}

/// The market-guide endpoint for a stock.
pub open spec fn stock_info_url_spec(orderbook_id: Seq<char>) -> Seq<char> {
    "https://www.avanza.se/_api/market-guide/stock/"@ + orderbook_id
}

/// Writes the market-guide URL for a stock.
pub fn stock_info_url(orderbook_id: &str) -> (r: String)
    ensures
        r@ == stock_info_url_spec(orderbook_id@),
{
    let mut out = "https://www.avanza.se/_api/market-guide/stock/".to_owned();
    out.append(orderbook_id);
    out
}

} // verus!
