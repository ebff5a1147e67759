use coop_cloud_mdns_publisher::avahi::{
    AvahiError, AvahiState, StatusProbe, StatusQuery, StatusReply,
};

#[test]
fn state_codes_are_interpreted() {
    assert_eq!(AvahiState::from_raw(0), AvahiState::Invalid);
    assert_eq!(AvahiState::from_raw(1), AvahiState::Registering);
    assert_eq!(AvahiState::from_raw(2), AvahiState::Running);
    assert_eq!(AvahiState::from_raw(3), AvahiState::Collision);
    assert_eq!(AvahiState::from_raw(4), AvahiState::Failure);
    assert_eq!(AvahiState::from_raw(5), AvahiState::Unknown(5));
    assert_eq!(AvahiState::from_raw(-1), AvahiState::Unknown(-1));
}

#[test]
fn states_have_labels() {
    assert_eq!(AvahiState::Invalid.label(), "Invalid");
    assert_eq!(AvahiState::Registering.label(), "Registering");
    assert_eq!(AvahiState::Running.label(), "Running");
    assert_eq!(AvahiState::Collision.label(), "Collision");
    assert_eq!(AvahiState::Failure.label(), "Failure");
    assert_eq!(AvahiState::Unknown(9).label(), "Unknown");
}

#[test]
fn error_messages() {
    assert_eq!(
        AvahiError::builder_failed("no bus").message(),
        "could not create D-Bus connection builder: no bus"
    );
    assert_eq!(
        AvahiError::connect_timed_out().message(),
        "timed out connecting to system D-Bus"
    );
    assert_eq!(
        AvahiError::connect_failed("refused").message(),
        "could not connect to system D-Bus: refused"
    );
    let err = AvahiError::proxy_failed("no name");
    assert!(matches!(err, AvahiError::ProxyCreate(_)));
    assert_eq!(err.message(), "could not reach Avahi on D-Bus: no name");
    let err = AvahiError::no_response("timeout");
    assert!(matches!(err, AvahiError::Call(_)));
    assert_eq!(err.message(), "Avahi did not respond: timeout");
    assert_eq!(
        AvahiError::state_unavailable("x").message(),
        "could not get Avahi state: x"
    );
}

fn run(replies: Vec<StatusReply>) -> StatusProbe {
    let mut probe = StatusProbe::start();
    for reply in replies {
        probe = probe.advance(reply);
    }
    probe
}

#[test]
fn full_status_report() {
    let mut probe = StatusProbe::start();
    assert!(matches!(probe.next_query(), Some(StatusQuery::GetVersionString)));
    probe = probe.advance(StatusReply::VersionString(Ok("avahi 0.8".to_string())));
    assert!(matches!(probe.next_query(), Some(StatusQuery::GetState)));
    probe = probe.advance(StatusReply::State(Ok(2)));
    assert!(matches!(probe.next_query(), Some(StatusQuery::GetHostNameFqdn)));
    probe = probe.advance(StatusReply::HostNameFqdn(Ok("box.local".to_string())));
    match probe.next_query() {
        Some(StatusQuery::ResolveHostName { interface, protocol, name, aprotocol, flags }) => {
            assert_eq!((interface, protocol, aprotocol, flags), (-1, -1, 0, 0));
            assert_eq!(name, "box.local");
        }
        other => panic!("unexpected query {:?}", other),
    }
    probe = probe.advance(StatusReply::ResolvedAddress(Ok("192.168.1.4".to_string())));
    assert!(probe.next_query().is_none());
    match probe {
        StatusProbe::Finished(Ok(status)) => {
            assert_eq!(status.version, "avahi 0.8");
            assert_eq!(status.state, AvahiState::Running);
            assert!(status.is_running());
            assert_eq!(status.fqdn, "box.local");
            assert_eq!(status.local_address, Some("192.168.1.4".to_string()));
        }
        other => panic!("unexpected probe {:?}", other),
    }
}

#[test]
fn missing_hostname_and_address_are_tolerated() {
    let probe = run(vec![
        StatusReply::VersionString(Ok("v".to_string())),
        StatusReply::State(Ok(3)),
        StatusReply::HostNameFqdn(Err("nope".to_string())),
        StatusReply::ResolvedAddress(Err("nope".to_string())),
    ]);
    match probe {
        StatusProbe::Finished(Ok(status)) => {
            assert_eq!(status.fqdn, "(unknown)");
            assert_eq!(status.state, AvahiState::Collision);
            assert!(!status.is_running());
            assert_eq!(status.local_address, None);
        }
        other => panic!("unexpected probe {:?}", other),
    }
}

#[test]
fn failed_version_query_ends_the_report() {
    let probe = run(vec![StatusReply::VersionString(Err("gone".to_string()))]);
    assert!(probe.next_query().is_none());
    match probe {
        StatusProbe::Finished(Err(err)) => {
            assert_eq!(err.message(), "Avahi did not respond: gone");
        }
        other => panic!("unexpected probe {:?}", other),
    }
}

#[test]
fn failed_state_query_ends_the_report() {
    let probe = run(vec![
        StatusReply::VersionString(Ok("v".to_string())),
        StatusReply::State(Err("denied".to_string())),
        StatusReply::HostNameFqdn(Ok("ignored".to_string())),
    ]);
    match probe {
        StatusProbe::Finished(Err(err)) => {
            assert_eq!(err.message(), "could not get Avahi state: denied");
        }
        other => panic!("unexpected probe {:?}", other),
    }
}

#[test]
fn reply_to_another_query_changes_nothing() {
    let probe = run(vec![StatusReply::State(Ok(2))]);
    assert!(matches!(probe, StatusProbe::Started));
    let probe = run(vec![
        StatusReply::VersionString(Ok("v".to_string())),
        StatusReply::VersionString(Ok("w".to_string())),
    ]);
    match probe {
        StatusProbe::HaveVersion { version } => assert_eq!(version, "v"),
        other => panic!("unexpected probe {:?}", other),
    }
}
