use vstd::prelude::*;
use vstd::string::StringExecFns;
use crate::stock_info::{stock_info_url, stock_info_url_spec};
use crate::strutil::str_eq;

verus! {

/// The fund-guide endpoint for a fund.
pub open spec fn fund_guide_url_spec(orderbook_id: Seq<char>) -> Seq<char> {
    "https://www.avanza.se/_api/fund-guide/guide/"@ + orderbook_id
}

/// Writes the fund-guide URL for a fund.
pub fn fund_guide_url(orderbook_id: &str) -> (r: String)
    ensures
        r@ == fund_guide_url_spec(orderbook_id@),
{
    let mut out = "https://www.avanza.se/_api/fund-guide/guide/".to_owned();
    out.append(orderbook_id);
    out
}

/// The URL the scraper is pointed at: the stock guide when the resolved
/// kind is "STOCK", the fund guide otherwise.
pub open spec fn scraper_url_spec(type_field: Seq<char>, orderbook_id: Seq<char>) -> Seq<char> {
    if type_field == "STOCK"@ {
        stock_info_url_spec(orderbook_id)
    } else {
        fund_guide_url_spec(orderbook_id)
    }
}

/// The JSON-path selector for the price field at that URL.
pub open spec fn scraper_selector_spec(type_field: Seq<char>) -> Seq<char> {
    if type_field == "STOCK"@ {
        "$.quote.last"@
    } else {
        "$.nav"@
    }
}

/// The JSON text of an object with the members `url` and `selector`
/// holding the two strings, as the serializer writes it. The value depends
/// on the two strings alone.
pub uninterp spec fn scraper_config_json(url: Seq<char>, selector: Seq<char>) -> Seq<char>;

/// Relies on serde_json's to_string of a Value::Object with the string
/// members "url" and "selector": serializing such a value cannot fail, and
/// the text depends on the two strings alone.
#[verifier::external_body]
fn scraper_config_to_json(url: &str, selector: &str) -> (r: String)
    ensures
        r@ == scraper_config_json(url@, selector@),
{
    let mut members = serde_json::Map::new();
    members.insert("url".to_string(), serde_json::Value::String(url.to_string()));
    members.insert("selector".to_string(), serde_json::Value::String(selector.to_string()));
    serde_json::to_string(&serde_json::Value::Object(members)).unwrap()
}

/// The scraper-configuration blob for a resolved symbol: the guide URL
/// matching the instrument kind, and the JSON-path selector for the price
/// field there.
pub fn get_scraper_configuration(type_field: &str, orderbook_id: &str) -> (r: String)
    ensures
        r@ == scraper_config_json(
            scraper_url_spec(type_field@, orderbook_id@),
            scraper_selector_spec(type_field@),
        ),
{
    let is_stock = str_eq(type_field, "STOCK");
    let url = if is_stock {
        stock_info_url(orderbook_id)
    } else {
        fund_guide_url(orderbook_id)
    };
    let selector = if is_stock {
        "$.quote.last"
    } else {
        "$.nav"
    };
    scraper_config_to_json(url.as_str(), selector)
}

} // verus!
