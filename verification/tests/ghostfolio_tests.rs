use avanza_ghostfolio::cli::SymbolType;
use avanza_ghostfolio::error::Error;
use avanza_ghostfolio::ghostfolio::{
    account_url, asset_symbols, market_data_url, position_of, profile_data_url, MarketData,
};

fn asset(symbol: &str) -> MarketData {
    MarketData {
        asset_class: "EQUITY".to_string(),
        asset_sub_class: "STOCK".to_string(),
        comment: None,
        currency: "SEK".to_string(),
        countries_count: 1,
        data_source: "MANUAL".to_string(),
        name: symbol.to_string(),
        symbol: symbol.to_string(),
        market_data_item_count: 0,
        sectors_count: 0,
        activities_count: 0,
    }
}

#[test]
fn service_urls() {
    assert_eq!(
        market_data_url("https://example.invalid"),
        "https://example.invalid/admin/market-data?take=50"
    );
    assert_eq!(
        profile_data_url("https://example.invalid", "ABC"),
        "https://example.invalid/api/v1/admin/profile-data/MANUAL/ABC"
    );
    assert_eq!(account_url("https://example.invalid"), "https://example.invalid/api/v1/account");
}

#[test]
fn symbols_keep_listing_order() {
    let assets = vec![asset("AAA"), asset("BBB")];
    assert_eq!(asset_symbols(&assets), vec!["AAA".to_string(), "BBB".to_string()]);
}

#[test]
fn answers_map_back_to_positions() {
    let options = vec!["AAA".to_string(), "BBB".to_string(), "AAA".to_string()];
    assert_eq!(position_of(&options, "BBB"), Some(1));
    assert_eq!(position_of(&options, "AAA"), Some(0));
    assert_eq!(position_of(&options, "CCC"), None);
}

#[test]
fn symbol_types_round_trip_their_wire_names() {
    assert_eq!(SymbolType::from_str("STOCK"), SymbolType::STOCK);
    assert_eq!(SymbolType::from_str("FUND"), SymbolType::MUTUALFUND);
    assert_eq!(SymbolType::try_from_str("BOND"), None);
    assert_eq!(SymbolType::STOCK.to_str(), "STOCK");
    assert_eq!(SymbolType::MUTUALFUND.to_str(), "FUND");
}

#[test]
fn error_labels() {
    assert_eq!(Error::NotFound.describe(), "no symbol match");
    assert_eq!(Error::InputAborted.describe(), "input aborted");
    assert_eq!(Error::UpstreamFailure.describe(), "upstream failure");
    assert_eq!(Error::ConfigFailure.describe(), "config failure");
    assert_eq!(Error::UnknownTransactionType.describe(), "unknown transaction type");
    assert_eq!(Error::MalformedRecord.describe(), "malformed record");
}
