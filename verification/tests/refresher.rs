use user_service::cache::TokenCache;
use user_service::refresher::{token_for, Refresher, REFRESH_INTERVAL_SECS};

#[test]
fn token_is_the_word_and_the_count_in_decimal() {
    assert_eq!(token_for(0), "token0");
    assert_eq!(token_for(1), "token1");
    assert_eq!(token_for(9), "token9");
    assert_eq!(token_for(10), "token10");
    assert_eq!(token_for(907), "token907");
    assert_eq!(token_for(1000), "token1000");
    assert_eq!(token_for(u64::MAX), "token18446744073709551615");
}

#[test]
fn token_agrees_with_the_standard_formatting() {
    for count in (0..3000u64).chain([99_999, 100_000, 1 << 40, u64::MAX - 1]) {
        assert_eq!(token_for(count), format!("token{}", count));
    }
}

#[test]
fn new_refresher_has_counted_nothing() {
    let refresher = Refresher::new();
    assert_eq!(refresher.count(), 0);
    assert_eq!(refresher.interval(), 0);
}

#[test]
fn first_cycle_does_not_wait_and_later_ones_wait_five_seconds() {
    assert_eq!(REFRESH_INTERVAL_SECS, 5);
    let mut refresher = Refresher::new();
    let mut cache = TokenCache::new();
    assert_eq!(refresher.begin_cycle(), 0);
    refresher.complete_cycle(&mut cache);
    for _ in 0..4 {
        assert_eq!(refresher.begin_cycle(), 5);
        refresher.complete_cycle(&mut cache);
    }
    assert_eq!(refresher.interval(), 5);
}

#[test]
fn begin_counts_and_complete_writes() {
    let mut refresher = Refresher::new();
    let mut cache = TokenCache::new();
    refresher.begin_cycle();
    assert_eq!(refresher.count(), 1);
    assert_eq!(cache.get("token"), None);
    refresher.complete_cycle(&mut cache);
    assert_eq!(refresher.count(), 1);
    assert_eq!(cache.get("token"), Some("token1".to_string()));
}

#[test]
fn after_n_cycles_the_cache_holds_the_token_of_cycle_n() {
    let mut refresher = Refresher::new();
    let mut cache = TokenCache::new();
    cache.set("other".to_string(), "kept".to_string());
    for cycle in 1..=25u64 {
        refresher.begin_cycle();
        refresher.complete_cycle(&mut cache);
        assert_eq!(refresher.count(), cycle);
        assert_eq!(cache.get("token"), Some(format!("token{}", cycle)));
    }
    assert_eq!(cache.get("other"), Some("kept".to_string()));
}
