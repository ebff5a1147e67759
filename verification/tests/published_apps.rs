use coop_cloud_mdns_publisher::published_apps::{App, PublishedApps};
use std::time::Duration;

/// Convenience alias — no real record needed in tests.
type TestApps = PublishedApps<()>;

fn app(name: &str) -> App {
    App {
        name: name.to_string(),
    }
}

fn instant_grace() -> Duration {
    Duration::ZERO
}

fn long_grace() -> Duration {
    Duration::from_secs(300)
}

#[test]
fn to_publish_returns_all_when_empty() {
    let pa = TestApps::new(
        long_grace(),
        "127.0.0.1".to_string(),
        "testhost".to_string(),
    );
    let apps = vec![app("foo"), app("bar")];
    let result: Vec<&str> = pa
        .to_publish(&apps)
        .iter()
        .map(|a| a.name.as_str())
        .collect();
    assert_eq!(result, vec!["foo", "bar"]);
}

#[test]
fn to_publish_excludes_already_published() {
    let mut pa = TestApps::new(
        long_grace(),
        "127.0.0.1".to_string(),
        "testhost".to_string(),
    );
    pa.insert("foo".to_string(), ());
    let apps = vec![app("foo"), app("bar")];
    let result: Vec<&str> = pa
        .to_publish(&apps)
        .iter()
        .map(|a| a.name.as_str())
        .collect();
    assert_eq!(result, vec!["bar"]);
}

#[test]
fn to_withdraw_not_triggered_within_grace_period() {
    let mut pa = TestApps::new(
        long_grace(),
        "127.0.0.1".to_string(),
        "testhost".to_string(),
    );
    pa.insert("foo".to_string(), ());
    // First call with empty list — starts grace period.
    let withdrawn = pa.to_withdraw(&[]);
    assert!(withdrawn.is_empty());
    // Second call still within grace period — not yet withdrawn.
    let withdrawn = pa.to_withdraw(&[]);
    assert!(withdrawn.is_empty());
}

#[test]
fn to_withdraw_triggers_after_grace_period() {
    let mut pa = TestApps::new(
        instant_grace(),
        "127.0.0.1".to_string(),
        "testhost".to_string(),
    );
    pa.insert("foo".to_string(), ());
    // First call starts the pending state.
    pa.to_withdraw(&[]);
    // Second call — elapsed >= Duration::ZERO, so it should withdraw.
    let withdrawn = pa.to_withdraw(&[]);
    assert_eq!(withdrawn, vec!["foo"]);
}

#[test]
fn reappearing_app_cancels_pending_withdrawal() {
    let mut pa = TestApps::new(
        long_grace(),
        "127.0.0.1".to_string(),
        "testhost".to_string(),
    );
    pa.insert("foo".to_string(), ());
    // App goes absent — starts grace period.
    pa.to_withdraw(&[]);
    // App comes back — grace period should be cancelled.
    let withdrawn = pa.to_withdraw(&[app("foo")]);
    assert!(withdrawn.is_empty());
    // App goes absent again — should start a fresh grace period, not withdraw immediately.
    let withdrawn = pa.to_withdraw(&[]);
    assert!(withdrawn.is_empty());
}

#[test]
fn remove_prevents_future_withdrawal() {
    let mut pa = TestApps::new(
        instant_grace(),
        "127.0.0.1".to_string(),
        "testhost".to_string(),
    );
    pa.insert("foo".to_string(), ());
    let to_withdraw = pa.to_withdraw(&[]);
    // Grace period elapsed on second call; but we remove before that.
    pa.remove("foo");
    let withdrawn = pa.to_withdraw(&[]);
    assert!(withdrawn.is_empty());
    let _ = to_withdraw; // suppress unused warning
}
