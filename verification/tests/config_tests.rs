use trade_client::config::{Config, Item};
use trade_client::ninja::{divine_chaos_ratio, CurrencyOverviewLine};

fn config(ratio: u32, last_update: Option<u64>) -> Config {
    Config {
        league: "Standard".to_string(),
        chaos_to_divine: ratio,
        last_update,
        items: vec![Item { name: "ring".to_string(), query: "{}".to_string() }],
        prices: None,
    }
}

#[test]
fn ratio_is_stale_when_never_fetched() {
    assert!(config(0, None).ratio_is_stale(1_000_000));
    assert!(config(0, Some(999_000)).ratio_is_stale(1_000_000));
    assert!(config(150, None).ratio_is_stale(1_000_000));
}

#[test]
fn ratio_is_fresh_within_a_day() {
    let c = config(150, Some(1_000_000));
    assert!(!c.ratio_is_stale(1_000_000));
    assert!(!c.ratio_is_stale(1_000_000 + 86_400));
}

#[test]
fn ratio_is_stale_after_a_day() {
    let c = config(150, Some(1_000_000));
    assert!(c.ratio_is_stale(1_000_000 + 86_401));
}

#[test]
fn refresh_records_ratio_and_instant() {
    let mut c = config(0, None);
    c.set_chaos_to_divine(212, 5_000);
    assert_eq!(c.chaos_to_divine, 212);
    assert_eq!(c.last_update, Some(5_000));
    assert_eq!(c.league.as_str(), "Standard");
    assert!(!c.ratio_is_stale(5_000 + 86_400));
}

fn line(name: &str, chaos: u32) -> CurrencyOverviewLine {
    CurrencyOverviewLine {
        currency_type_name: name.to_string(),
        chaos_equivalent: chaos,
    }
}

#[test]
fn divine_ratio_found_in_overview() {
    let lines = vec![
        line("Chaos Orb", 1),
        line("Divine Orb", 212),
        line("Mirror of Kalandra", 90_000),
    ];
    assert_eq!(divine_chaos_ratio(&lines), Some(212));
}

#[test]
fn divine_ratio_takes_the_first_match() {
    let lines = vec![line("Divine Orb", 212), line("Divine Orb", 999)];
    assert_eq!(divine_chaos_ratio(&lines), Some(212));
}

#[test]
fn divine_ratio_missing_from_overview() {
    let lines = vec![line("Chaos Orb", 1)];
    assert_eq!(divine_chaos_ratio(&lines), None);
    assert_eq!(divine_chaos_ratio(&Vec::new()), None);
}
