use branch_dashboard::cache::{RepositoriesDataCache, RELOAD_THRESHOLD_MILLIS};
use branch_dashboard::repositories::{RepositoriesData, RepositoryBranchData};

fn snapshot(name: &str) -> RepositoriesData {
    RepositoriesData {
        last_updated_date: Some("2023-03-06T14:51:09+00:00".to_string()),
        currently_refreshing: false,
        repositories: vec![RepositoryBranchData {
            repository_name: name.to_string(),
            repository_url: "https://example.org/repo".to_string(),
            pull_request_target_branches: vec![],
            standalone_branches: vec![],
        }],
    }
}

#[test]
fn never_loaded_cache_reloads() {
    let cache = RepositoriesDataCache::new();
    assert!(cache.should_reload());
    assert!(cache.should_reload_at(0));
    assert!(cache.should_reload_at(u64::MAX));
    let data = cache.get_cached_data();
    assert!(data.last_updated_date.is_none());
    assert!(data.repositories.is_empty());
    assert!(!data.currently_refreshing);
}

#[test]
fn staleness_threshold() {
    assert_eq!(RELOAD_THRESHOLD_MILLIS, 30_000);
    let mut cache = RepositoriesDataCache::new();
    let t = 1_000_000;
    cache.cache_data_at(snapshot("r"), t);
    assert!(!cache.should_reload_at(t));
    assert!(!cache.should_reload_at(t + 10_000));
    assert!(!cache.should_reload_at(t + 30_000));
    assert!(cache.should_reload_at(t + 30_001));
    assert!(cache.should_reload_at(t + 31_000));
}

#[test]
fn freshly_cached_data_is_not_reloaded() {
    let mut cache = RepositoriesDataCache::new();
    cache.cache_data(snapshot("r"));
    assert!(!cache.should_reload());
    assert_eq!(cache.get_cached_data().repositories[0].repository_name, "r");
}

#[test]
fn set_refreshing_keeps_data() {
    let mut cache = RepositoriesDataCache::new();
    cache.cache_data_at(snapshot("r"), 0);
    cache.set_refreshing(true);
    let data = cache.get_cached_data();
    assert!(data.currently_refreshing);
    assert_eq!(data.repositories.len(), 1);
    cache.set_refreshing(false);
    assert!(!cache.get_cached_data().currently_refreshing);
}

#[test]
fn single_flight_after_successful_load() {
    let mut cache = RepositoriesDataCache::new();
    assert!(cache.on_reload_signal_at(100));
    assert!(cache.get_cached_data().currently_refreshing);
    for i in 0..50 {
        assert!(!cache.on_reload_signal_at(100 + i));
    }
    assert!(!cache.finish_refresh_at(Some(snapshot("r")), 500));
    assert!(!cache.get_cached_data().currently_refreshing);
    assert_eq!(cache.get_cached_data().repositories[0].repository_name, "r");
    assert!(!cache.on_reload_signal_at(600));
}

#[test]
fn single_flight_after_failed_load() {
    let mut cache = RepositoriesDataCache::new();
    cache.cache_data_at(snapshot("old"), 0);
    assert!(cache.on_reload_signal_at(40_000));
    for i in 0..20 {
        assert!(!cache.on_reload_signal_at(40_000 + i));
    }
    assert!(cache.finish_refresh_at(None, 41_000));
    assert!(cache.get_cached_data().currently_refreshing);
    assert!(!cache.finish_refresh_at(None, 42_000));
    assert!(!cache.get_cached_data().currently_refreshing);
    assert_eq!(cache.get_cached_data().repositories[0].repository_name, "old");
}

#[test]
fn signal_without_pending_does_not_restart() {
    let mut cache = RepositoriesDataCache::new();
    assert!(cache.on_reload_signal_at(0));
    assert!(!cache.finish_refresh_at(None, 10));
    assert!(cache.on_reload_signal_at(20));
}
