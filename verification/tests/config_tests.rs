use avanza_ghostfolio::config::{Config, GhostfolioConfig, StrMap};

#[test]
fn empty_map_has_nothing() {
    let m = StrMap::new();
    assert_eq!(m.len(), 0);
    assert_eq!(m.get("anything"), None);
}

#[test]
fn learned_keys_come_back() {
    let mut m = StrMap::new();
    m.insert("alpha".to_string(), "1".to_string());
    m.insert("beta".to_string(), "2".to_string());
    assert_eq!(m.len(), 2);
    assert_eq!(m.get("alpha"), Some(&"1".to_string()));
    assert_eq!(m.get("beta"), Some(&"2".to_string()));
    assert_eq!(m.get("gamma"), None);
}

#[test]
fn fresh_config_has_defaults() {
    let c = Config::new();
    assert!(c.ghostfolio.is_none());
    assert_eq!(c.avanza_to_ghostfolio_ticker.len(), 0);
}

#[test]
fn account_mapping_is_learned_once_per_symbol() {
    let mut g = GhostfolioConfig::new("SECRET-REDACTED".to_string(), "https://example.invalid".to_string());
    assert_eq!(g.account_for_symbol("EXAMPLE"), None);
    g.learn_account_mapping("EXAMPLE".to_string(), "Main account".to_string());
    assert_eq!(g.account_for_symbol("EXAMPLE"), Some(&"Main account".to_string()));
    assert_eq!(g.account_for_symbol("OTHER"), None);
    assert_eq!(g.base_url, "https://example.invalid");
}
