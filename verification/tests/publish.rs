use coop_cloud_mdns_publisher::avahi::{AvahiState, AvahiStatus};
use coop_cloud_mdns_publisher::publish::{record_address, record_name, PublishSetupError};
use coop_cloud_mdns_publisher::published_apps::{App, PublishedApps};

fn app(name: &str) -> App {
    App {
        name: name.to_string(),
    }
}

fn status(state: AvahiState, address: Option<&str>) -> AvahiStatus {
    AvahiStatus {
        version: "avahi 0.8".to_string(),
        state,
        fqdn: "box.local".to_string(),
        local_address: address.map(|a| a.to_string()),
    }
}

#[test]
fn record_names_join_app_and_host() {
    assert_eq!(record_name("nextcloud", "box"), "nextcloud-box.local");
    assert_eq!(record_name("", ""), "-.local");
}

#[test]
fn running_daemon_gives_its_address() {
    let got = record_address(&status(AvahiState::Running, Some("192.168.1.4")));
    assert_eq!(got, Ok("192.168.1.4".to_string()));
}

#[test]
fn stopped_daemon_is_refused() {
    let got = record_address(&status(AvahiState::Failure, Some("192.168.1.4")));
    assert_eq!(got, Err(PublishSetupError::NotRunning(AvahiState::Failure)));
    assert_eq!(
        got.unwrap_err().message(),
        "Avahi is not running (state: Failure)"
    );
}

#[test]
fn missing_address_is_refused() {
    let got = record_address(&status(AvahiState::Running, None));
    assert_eq!(got, Err(PublishSetupError::NoLocalAddress));
    assert_eq!(
        got.unwrap_err().message(),
        "could not determine local IP address from Avahi"
    );
}

#[test]
fn poll_plans_withdrawals_and_publications() {
    let mut pa: PublishedApps<()> =
        PublishedApps::with_grace_nanos(0, "192.168.1.4".to_string(), "box".to_string());
    let plan = pa.poll(&[app("foo")]);
    assert!(plan.withdrawn.is_empty());
    assert_eq!(plan.to_publish.len(), 1);
    assert_eq!(plan.to_publish[0].app_name, "foo");
    assert_eq!(plan.to_publish[0].record_name, "foo-box.local");
    pa.insert("foo".to_string(), ());

    let plan = pa.poll(&[app("bar")]);
    assert!(plan.withdrawn.is_empty());
    assert_eq!(plan.to_publish[0].record_name, "bar-box.local");

    let plan = pa.poll(&[app("bar")]);
    assert_eq!(plan.withdrawn, vec!["foo".to_string()]);
    let plan = pa.poll(&[app("foo")]);
    assert_eq!(plan.to_publish.len(), 1);
    assert_eq!(plan.to_publish[0].app_name, "foo");
}

#[test]
fn failed_publish_is_offered_again() {
    let mut pa: PublishedApps<()> =
        PublishedApps::with_grace_nanos(0, "192.168.1.4".to_string(), "box".to_string());
    let plan = pa.poll(&[app("foo")]);
    assert_eq!(plan.to_publish[0].app_name, "foo");
    // The publish failed: nothing is inserted.
    let plan = pa.poll(&[app("foo")]);
    assert_eq!(plan.to_publish.len(), 1);
    assert_eq!(plan.to_publish[0].app_name, "foo");
}

#[test]
fn tick_tracks_published_and_drops_withdrawn() {
    let mut pa: PublishedApps<()> =
        PublishedApps::with_grace_nanos(0, "192.168.1.4".to_string(), "box".to_string());
    pa.insert("old".to_string(), ());
    let plan = pa.poll(&[app("new")]);
    assert!(plan.withdrawn.is_empty());
    pa.insert(plan.to_publish[0].app_name.clone(), ());
    let plan = pa.poll(&[app("new")]);
    assert_eq!(plan.withdrawn, vec!["old".to_string()]);
    assert!(plan.to_publish.is_empty());
    let plan = pa.poll(&[app("new"), app("old")]);
    assert!(plan.withdrawn.is_empty());
    assert_eq!(plan.to_publish.len(), 1);
    assert_eq!(plan.to_publish[0].record_name, "old-box.local");
    assert_eq!(pa.address(), "192.168.1.4");
    assert_eq!(pa.hostname(), "box");
}
