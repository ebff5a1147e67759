use coop_cloud_mdns_publisher::published_apps::{App, PublishedApps};
use std::time::Duration;

fn app(name: &str) -> App {
    App {
        name: name.to_string(),
    }
}

fn tracker(grace_nanos: u128) -> PublishedApps<u32> {
    PublishedApps::with_grace_nanos(grace_nanos, "10.0.0.5".to_string(), "box".to_string())
}

#[test]
fn withdrawal_waits_for_the_whole_grace_period() {
    let mut pa = tracker(100);
    pa.insert("foo".to_string(), 1);
    assert!(pa.to_withdraw_at(&[], 10).is_empty());
    assert!(pa.to_withdraw_at(&[], 109).is_empty());
    assert_eq!(pa.to_withdraw_at(&[], 110), vec!["foo".to_string()]);
}

#[test]
fn present_app_is_never_withdrawn() {
    let mut pa = tracker(0);
    pa.insert("foo".to_string(), 1);
    assert!(pa.to_withdraw_at(&[app("foo")], 5).is_empty());
    assert!(pa.to_withdraw_at(&[app("foo")], 500).is_empty());
}

#[test]
fn zero_grace_withdraws_at_second_absence() {
    let mut pa = tracker(0);
    pa.insert("foo".to_string(), 1);
    assert!(pa.to_withdraw_at(&[], 7).is_empty());
    assert_eq!(pa.to_withdraw_at(&[], 7), vec!["foo".to_string()]);
}

#[test]
fn reappearance_restarts_the_grace_period() {
    let mut pa = tracker(100);
    pa.insert("foo".to_string(), 1);
    assert!(pa.to_withdraw_at(&[], 0).is_empty());
    assert!(pa.to_withdraw_at(&[app("foo")], 50).is_empty());
    assert!(pa.to_withdraw_at(&[], 60).is_empty());
    assert!(pa.to_withdraw_at(&[], 159).is_empty());
    assert_eq!(pa.to_withdraw_at(&[], 160), vec!["foo".to_string()]);
}

#[test]
fn clock_reading_before_the_start_counts_as_no_time() {
    let mut pa = tracker(1);
    pa.insert("foo".to_string(), 1);
    assert!(pa.to_withdraw_at(&[], 100).is_empty());
    assert!(pa.to_withdraw_at(&[], 50).is_empty());
    let mut zero = tracker(0);
    zero.insert("foo".to_string(), 1);
    assert!(zero.to_withdraw_at(&[], 100).is_empty());
    assert_eq!(zero.to_withdraw_at(&[], 50), vec!["foo".to_string()]);
}

#[test]
fn only_due_apps_are_withdrawn() {
    let mut pa = tracker(10);
    pa.insert("a".to_string(), 1);
    pa.insert("b".to_string(), 2);
    pa.insert("c".to_string(), 3);
    assert!(pa.to_withdraw_at(&[app("b")], 0).is_empty());
    assert!(pa.to_withdraw_at(&[app("b"), app("c")], 5).is_empty());
    let mut withdrawn = pa.to_withdraw_at(&[app("b")], 20);
    withdrawn.sort();
    assert_eq!(withdrawn, vec!["a".to_string()]);
}

#[test]
fn untracked_app_is_never_withdrawn() {
    let mut pa = tracker(0);
    pa.insert("foo".to_string(), 1);
    pa.remove("foo");
    pa.remove("never-there");
    assert!(pa.to_withdraw_at(&[], 1).is_empty());
    assert!(pa.to_withdraw_at(&[], 2).is_empty());
}

#[test]
fn reinserting_an_app_resets_its_state() {
    let mut pa = tracker(0);
    pa.insert("foo".to_string(), 1);
    assert!(pa.to_withdraw_at(&[], 1).is_empty());
    pa.insert("foo".to_string(), 2);
    assert!(pa.to_withdraw_at(&[], 2).is_empty());
    assert_eq!(pa.to_withdraw_at(&[], 3), vec!["foo".to_string()]);
}

#[test]
fn removed_app_is_offered_again() {
    let mut pa = tracker(0);
    pa.insert("foo".to_string(), 1);
    let apps = vec![app("foo"), app("bar")];
    let names: Vec<&str> = pa.to_publish(&apps).iter().map(|a| a.name.as_str()).collect();
    assert_eq!(names, vec!["bar"]);
    pa.remove("foo");
    let names: Vec<&str> = pa.to_publish(&apps).iter().map(|a| a.name.as_str()).collect();
    assert_eq!(names, vec!["foo", "bar"]);
}

#[test]
fn address_and_hostname_are_kept() {
    let pa = tracker(0);
    assert_eq!(pa.address(), "10.0.0.5");
    assert_eq!(pa.hostname(), "box");
    assert!(pa.matches("10.0.0.5", "box"));
    assert!(!pa.matches("10.0.0.6", "box"));
    assert!(!pa.matches("10.0.0.5", "box2"));
}

#[test]
fn long_grace_from_a_duration_holds_records() {
    let mut pa: PublishedApps<()> =
        PublishedApps::new(Duration::from_secs(3600), "a".to_string(), "h".to_string());
    pa.insert("foo".to_string(), ());
    assert!(pa.to_withdraw(&[]).is_empty());
    assert!(pa.to_withdraw(&[]).is_empty());
}
