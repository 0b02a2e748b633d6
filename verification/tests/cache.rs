use user_service::cache::TokenCache;

#[test]
fn new_cache_has_no_token() {
    let cache = TokenCache::new();
    assert_eq!(cache.get("token"), None);
}

#[test]
fn set_then_get_returns_the_value() {
    let mut cache = TokenCache::new();
    cache.set("token".to_string(), "token1".to_string());
    assert_eq!(cache.get("token"), Some("token1".to_string()));
}

#[test]
fn set_overwrites_the_earlier_value() {
    let mut cache = TokenCache::new();
    cache.set("token".to_string(), "token1".to_string());
    cache.set("token".to_string(), "token2".to_string());
    assert_eq!(cache.get("token"), Some("token2".to_string()));
}

#[test]
fn keys_are_kept_apart() {
    let mut cache = TokenCache::new();
    cache.set("token".to_string(), "token1".to_string());
    cache.set("other".to_string(), "value".to_string());
    assert_eq!(cache.get("token"), Some("token1".to_string()));
    assert_eq!(cache.get("other"), Some("value".to_string()));
    assert_eq!(cache.get("Token"), None);
    assert_eq!(cache.get(""), None);
}

#[test]
fn current_token_is_what_is_under_the_refresher_key() {
    let mut cache = TokenCache::new();
    assert_eq!(cache.current_token(), None);
    cache.set("other".to_string(), "value".to_string());
    assert_eq!(cache.current_token(), None);
    cache.set("token".to_string(), "token7".to_string());
    assert_eq!(cache.current_token(), Some("token7".to_string()));
}
