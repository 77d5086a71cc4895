use avanza_ghostfolio::scraper::{fund_guide_url, get_scraper_configuration};
use avanza_ghostfolio::stock_info::stock_info_url;

#[test]
fn guide_urls() {
    assert_eq!(
        stock_info_url("5247"),
        "https://www.avanza.se/_api/market-guide/stock/5247"
    );
    assert_eq!(
        fund_guide_url("5247"),
        "https://www.avanza.se/_api/fund-guide/guide/5247"
    );
}

#[test]
fn stock_scraper_configuration() {
    // The serializer writes object members in key order.
    assert_eq!(
        get_scraper_configuration("STOCK", "5247"),
        "{\"selector\":\"$.quote.last\",\"url\":\"https://www.avanza.se/_api/market-guide/stock/5247\"}"
    );
}

#[test]
fn fund_scraper_configuration() {
    assert_eq!(
        get_scraper_configuration("FUND", "5247"),
        "{\"selector\":\"$.nav\",\"url\":\"https://www.avanza.se/_api/fund-guide/guide/5247\"}"
    );
}
