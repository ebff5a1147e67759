use vstd::prelude::*;

verus! {

/// The server state that Avahi reports over D-Bus (`GetState`).
#[derive(Debug, Clone, Copy, PartialEq, Eq, Structural)]
pub enum AvahiState {
    Invalid,
    Registering,
    Running,
    Collision,
    Failure,
    Unknown(i32),
}

/// The state that a raw D-Bus state code stands for.
pub open spec fn state_of_code(raw: i32) -> AvahiState {
    if raw == 0 {
        AvahiState::Invalid
    } else if raw == 1 {
        AvahiState::Registering
    } else if raw == 2 {
        AvahiState::Running
    } else if raw == 3 {
        AvahiState::Collision
    } else if raw == 4 {
        AvahiState::Failure
    } else {
        AvahiState::Unknown(raw)
    }
}

/// The human-readable name of a state.
pub open spec fn state_label(state: AvahiState) -> Seq<char> {
    match state {
        AvahiState::Invalid => "Invalid"@,
        AvahiState::Registering => "Registering"@,
        AvahiState::Running => "Running"@,
        AvahiState::Collision => "Collision"@,
        AvahiState::Failure => "Failure"@,
        AvahiState::Unknown(_) => "Unknown"@,
    }
}

impl AvahiState {
    /// Interprets the state code returned by Avahi's `GetState` call.
    pub fn from_raw(raw: i32) -> (state: AvahiState)
        ensures
            state == state_of_code(raw),
    {
        match raw {
            0 => AvahiState::Invalid,
            1 => AvahiState::Registering,
            2 => AvahiState::Running,
            3 => AvahiState::Collision,
            4 => AvahiState::Failure,
            n => AvahiState::Unknown(n),
        }
    }

    /// The name under which the state is shown to the user.
    pub fn label(&self) -> (text: &str)
        ensures
            text@ == state_label(*self),
    {
        match self {
            AvahiState::Invalid => "Invalid",
            AvahiState::Registering => "Registering",
            AvahiState::Running => "Running",
            AvahiState::Collision => "Collision",
            AvahiState::Failure => "Failure",
            AvahiState::Unknown(_) => "Unknown",
        }
    }
}


/// An error while reaching or querying Avahi over D-Bus.
#[derive(Debug)]
pub enum AvahiError {
    DBusConnect(String),
    ProxyCreate(String),
    Call(String),
}

/// The text that an error is shown as.
pub open spec fn error_message(err: AvahiError) -> Seq<char> {
    match err {
        AvahiError::DBusConnect(msg) => msg@,
        AvahiError::ProxyCreate(msg) => msg@,
        AvahiError::Call(msg) => msg@,
    }
}

/// `prefix` followed by `detail`.
fn prefixed(prefix: &str, detail: &str) -> (text: String)
    ensures
        text@ == prefix@ + detail@,
{
    String::from_str(prefix).concat(detail)
}

impl AvahiError {
    /// The text that the error is shown as.
    pub fn message(&self) -> (text: String)
        ensures
            text@ == error_message(*self),
    {
        match self {
            AvahiError::DBusConnect(msg) => msg.clone(),
            AvahiError::ProxyCreate(msg) => msg.clone(),
            AvahiError::Call(msg) => msg.clone(),
        }
    }

    /// No builder for a system D-Bus connection could be made; `detail`
    /// says why.
    pub fn builder_failed(detail: &str) -> (err: AvahiError)
        ensures
            err matches AvahiError::DBusConnect(msg) && msg@
                == "could not create D-Bus connection builder: "@ + detail@,
    {
        AvahiError::DBusConnect(prefixed("could not create D-Bus connection builder: ", detail))
    }

    /// Connecting to the system D-Bus took longer than allowed.
    pub fn connect_timed_out() -> (err: AvahiError)
        ensures
            err matches AvahiError::DBusConnect(msg) && msg@ == "timed out connecting to system D-Bus"@,
    {
        AvahiError::DBusConnect(String::from_str("timed out connecting to system D-Bus"))
    }

    /// The system D-Bus refused the connection; `detail` says why.
    pub fn connect_failed(detail: &str) -> (err: AvahiError)
        ensures
            err matches AvahiError::DBusConnect(msg) && msg@ == "could not connect to system D-Bus: "@
                + detail@,
    {
        AvahiError::DBusConnect(prefixed("could not connect to system D-Bus: ", detail))
    }

    /// No proxy for the Avahi server could be made on the bus; `detail`
    /// says why.
    pub fn proxy_failed(detail: &str) -> (err: AvahiError)
        ensures
            err matches AvahiError::ProxyCreate(msg) && msg@ == "could not reach Avahi on D-Bus: "@
                + detail@,
    {
        AvahiError::ProxyCreate(prefixed("could not reach Avahi on D-Bus: ", detail))
    }

    /// Avahi did not answer the version query; `detail` says why.
    pub fn no_response(detail: &str) -> (err: AvahiError)
        ensures
            err matches AvahiError::Call(msg) && msg@ == "Avahi did not respond: "@ + detail@,
    {
        AvahiError::Call(prefixed("Avahi did not respond: ", detail))
    }

    /// Avahi did not answer the state query; `detail` says why.
    pub fn state_unavailable(detail: &str) -> (err: AvahiError)
        ensures
            err matches AvahiError::Call(msg) && msg@ == "could not get Avahi state: "@ + detail@,
    {
        AvahiError::Call(prefixed("could not get Avahi state: ", detail))
    }
}

/// What Avahi reported about itself.
#[derive(Debug)]
pub struct AvahiStatus {
    pub version: String,
    pub state: AvahiState,
    pub fqdn: String,
    pub local_address: Option<String>,
}

impl AvahiStatus {
    /// Whether the daemon is up and serving records.
    pub fn is_running(&self) -> (running: bool)
        ensures
            running == (self.state == AvahiState::Running),
    {
        self.state == AvahiState::Running
    }
}


/// Any network interface (`AVAHI_IF_UNSPEC`).
pub const AVAHI_IF_UNSPEC: i32 = -1;

/// Any protocol (`AVAHI_PROTO_UNSPEC`).
pub const AVAHI_PROTO_UNSPEC: i32 = -1;

/// IPv4 (`AVAHI_PROTO_INET`).
pub const AVAHI_PROTO_INET: i32 = 0;

/// A D-Bus call on `org.freedesktop.Avahi.Server` that the status report
/// needs next.
#[derive(Debug)]
pub enum StatusQuery {
    GetVersionString,
    GetState,
    GetHostNameFqdn,
    ResolveHostName { interface: i32, protocol: i32, name: String, aprotocol: i32, flags: u32 },
}

/// Avahi's answer to a status query; a failed call carries the error's text.
/// For `ResolveHostName` only the resolved address is kept.
#[derive(Debug)]
pub enum StatusReply {
    VersionString(Result<String, String>),
    State(Result<i32, String>),
    HostNameFqdn(Result<String, String>),
    ResolvedAddress(Result<String, String>),
}

/// How far the conversation that builds an [`AvahiStatus`] has got.
#[derive(Debug)]
pub enum StatusProbe {
    Started,
    HaveVersion { version: String },
    HaveState { version: String, state: i32 },
    HaveFqdn { version: String, state: i32, fqdn: String },
    Finished(Result<AvahiStatus, AvahiError>),
}

/// The call that a probe in the given stage makes next; none once finished.
pub open spec fn probe_query(probe: StatusProbe) -> Option<StatusQuery> {
    match probe {
        StatusProbe::Started => Some(StatusQuery::GetVersionString),
        StatusProbe::HaveVersion { .. } => Some(StatusQuery::GetState),
        StatusProbe::HaveState { .. } => Some(StatusQuery::GetHostNameFqdn),
        StatusProbe::HaveFqdn { fqdn, .. } => Some(
            StatusQuery::ResolveHostName {
                interface: AVAHI_IF_UNSPEC,
                protocol: AVAHI_PROTO_UNSPEC,
                name: fqdn,
                aprotocol: AVAHI_PROTO_INET,
                flags: 0,
            },
        ),
        StatusProbe::Finished(_) => None,
    }
}

/// `after` is where `before` goes on `reply`: a failed version or state
/// query ends the report with an error, a failed hostname query stands in
/// `(unknown)`, a failed address lookup leaves the address out, and a reply
/// that does not answer the pending query changes nothing.
pub open spec fn probe_step(before: StatusProbe, reply: StatusReply, after: StatusProbe) -> bool {
    match (before, reply) {
        (StatusProbe::Started, StatusReply::VersionString(Ok(version))) => after
            == StatusProbe::HaveVersion { version },
        (StatusProbe::Started, StatusReply::VersionString(Err(detail))) => after matches StatusProbe::Finished(
            Err(AvahiError::Call(msg)),
        ) && msg@ == "Avahi did not respond: "@ + detail@,
        (StatusProbe::HaveVersion { version }, StatusReply::State(Ok(state))) => after
            == StatusProbe::HaveState { version, state },
        (StatusProbe::HaveVersion { .. }, StatusReply::State(Err(detail))) => after matches StatusProbe::Finished(
            Err(AvahiError::Call(msg)),
        ) && msg@ == "could not get Avahi state: "@ + detail@,
        (StatusProbe::HaveState { version, state }, StatusReply::HostNameFqdn(Ok(fqdn))) => after
            == StatusProbe::HaveFqdn { version, state, fqdn },
        (StatusProbe::HaveState { version, state }, StatusReply::HostNameFqdn(Err(_))) => after matches StatusProbe::HaveFqdn {
            version: v,
            state: s,
            fqdn,
        } && v == version && s == state && fqdn@ == "(unknown)"@,
        (StatusProbe::HaveFqdn { version, state, fqdn }, StatusReply::ResolvedAddress(resolved)) => after
            == StatusProbe::Finished(
            Ok(
                AvahiStatus {
                    version,
                    state: state_of_code(state),
                    fqdn,
                    local_address: match resolved {
                        Ok(address) => Some(address),
                        Err(_) => None,
                    },
                },
            ),
        ),
        _ => after == before,
    }
}

impl StatusProbe {
    /// A conversation that has not asked anything yet.
    pub fn start() -> (probe: StatusProbe)
        ensures
            probe == StatusProbe::Started,
    {
        StatusProbe::Started
    }

    /// The D-Bus call to make next, or `None` once the report is finished.
    pub fn next_query(&self) -> (query: Option<StatusQuery>)
        ensures
            query == probe_query(*self),
    {
        match self {
            StatusProbe::Started => Some(StatusQuery::GetVersionString),
            StatusProbe::HaveVersion { .. } => Some(StatusQuery::GetState),
            StatusProbe::HaveState { .. } => Some(StatusQuery::GetHostNameFqdn),
            StatusProbe::HaveFqdn { fqdn, .. } => Some(
                StatusQuery::ResolveHostName {
                    interface: AVAHI_IF_UNSPEC,
                    protocol: AVAHI_PROTO_UNSPEC,
                    name: fqdn.clone(),
                    aprotocol: AVAHI_PROTO_INET,
                    flags: 0,
                },
            ),
            StatusProbe::Finished(_) => None,
        }
    }

    /// Takes in Avahi's reply to the pending query.
    pub fn advance(self, reply: StatusReply) -> (after: StatusProbe)
        ensures
            probe_step(self, reply, after),
    {
        match (self, reply) {
            (StatusProbe::Started, StatusReply::VersionString(Ok(version))) => StatusProbe::HaveVersion {
                version,
            },
            (StatusProbe::Started, StatusReply::VersionString(Err(detail))) => StatusProbe::Finished(
                Err(AvahiError::no_response(detail.as_str())),
            ),
            (StatusProbe::HaveVersion { version }, StatusReply::State(Ok(state))) => StatusProbe::HaveState {
                version,
                state,
            },
            (StatusProbe::HaveVersion { .. }, StatusReply::State(Err(detail))) => StatusProbe::Finished(
                Err(AvahiError::state_unavailable(detail.as_str())),
            ),
            (StatusProbe::HaveState { version, state }, StatusReply::HostNameFqdn(Ok(fqdn))) => StatusProbe::HaveFqdn {
                version,
                state,
                fqdn,
            },
            (StatusProbe::HaveState { version, state }, StatusReply::HostNameFqdn(Err(_))) => StatusProbe::HaveFqdn {
                version,
                state,
                fqdn: String::from_str("(unknown)"),
            },
            (StatusProbe::HaveFqdn { version, state, fqdn }, StatusReply::ResolvedAddress(resolved)) => {
                let local_address = match resolved {
                    Ok(address) => Some(address),
                    Err(_) => None,
                };
                StatusProbe::Finished(
                    Ok(AvahiStatus { version, state: AvahiState::from_raw(state), fqdn, local_address }),
                )
            },
            (before, _) => before,
        }
    }
}

/// The daemon counts as running for exactly one state code, 2.
pub proof fn law_running_is_code_two(code: i32)
    ensures
        (state_of_code(code) == AvahiState::Running) <==> code == 2,
{
}

/// The label that a state code is shown with: the five known codes have
/// their own names, every other code shows as `Unknown`.
pub proof fn law_code_labels(code: i32)
    ensures
        state_label(state_of_code(code)) == (if code == 0 {
            "Invalid"@
        } else if code == 1 {
            "Registering"@
        } else if code == 2 {
            "Running"@
        } else if code == 3 {
            "Collision"@
        } else if code == 4 {
            "Failure"@
        } else {
            "Unknown"@
        }),
{
}

/// A status report asks Avahi, in turn, for its version, its state, its
/// host name and the address of that host name; when every call succeeds
/// the report holds exactly the answers, with the state code interpreted.
pub proof fn law_status_report_of_answers(
    p1: StatusProbe,
    p2: StatusProbe,
    p3: StatusProbe,
    p4: StatusProbe,
    version: String,
    state: i32,
    fqdn: String,
    address: String,
)
    requires
        probe_step(StatusProbe::Started, StatusReply::VersionString(Ok(version)), p1),
        probe_step(p1, StatusReply::State(Ok(state)), p2),
        probe_step(p2, StatusReply::HostNameFqdn(Ok(fqdn)), p3),
        probe_step(p3, StatusReply::ResolvedAddress(Ok(address)), p4),
    ensures
        probe_query(StatusProbe::Started) == Some(StatusQuery::GetVersionString),
        probe_query(p1) == Some(StatusQuery::GetState),
        probe_query(p2) == Some(StatusQuery::GetHostNameFqdn),
        probe_query(p3) == Some(
            StatusQuery::ResolveHostName {
                interface: AVAHI_IF_UNSPEC,
                protocol: AVAHI_PROTO_UNSPEC,
                name: fqdn,
                aprotocol: AVAHI_PROTO_INET,
                flags: 0,
            },
        ),
        probe_query(p4) == None::<StatusQuery>,
        p4 == StatusProbe::Finished(
            Ok(AvahiStatus { version, state: state_of_code(state), fqdn, local_address: Some(address) }),
        ),
{
}

/// Once the report is finished, further replies change nothing.
pub proof fn law_finished_report_is_final(
    outcome: Result<AvahiStatus, AvahiError>,
    reply: StatusReply,
    after: StatusProbe,
)
    requires
        probe_step(StatusProbe::Finished(outcome), reply, after),
    ensures
        after == StatusProbe::Finished(outcome),
{
}

/// A failed address lookup only leaves the address out of the report: from
/// the same version, state code and host name, a failed lookup finishes
/// with the very report a successful one gives, except that it has no local
/// address; in particular the host name Avahi reported is kept.
pub proof fn law_failed_lookup_only_drops_address(
    version: String,
    state: i32,
    fqdn: String,
    address: String,
    detail: String,
    resolved: StatusProbe,
    failed: StatusProbe,
)
    requires
        probe_step(
            StatusProbe::HaveFqdn { version, state, fqdn },
            StatusReply::ResolvedAddress(Ok(address)),
            resolved,
        ),
        probe_step(
            StatusProbe::HaveFqdn { version, state, fqdn },
            StatusReply::ResolvedAddress(Err(detail)),
            failed,
        ),
    ensures
        resolved == StatusProbe::Finished(
            Ok(AvahiStatus { version, state: state_of_code(state), fqdn, local_address: Some(address) }),
        ),
        failed == StatusProbe::Finished(
            Ok(AvahiStatus { version, state: state_of_code(state), fqdn, local_address: None }),
        ),
{
}

/// Whatever the address lookup answers, a report whose first three calls
/// succeed holds the version, the interpreted state and the host name that
/// Avahi gave, and the address exactly when the lookup succeeded.
pub proof fn law_report_keeps_reported_host(
    p1: StatusProbe,
    p2: StatusProbe,
    p3: StatusProbe,
    p4: StatusProbe,
    version: String,
    state: i32,
    fqdn: String,
    lookup: Result<String, String>,
)
    requires
        probe_step(StatusProbe::Started, StatusReply::VersionString(Ok(version)), p1),
        probe_step(p1, StatusReply::State(Ok(state)), p2),
        probe_step(p2, StatusReply::HostNameFqdn(Ok(fqdn)), p3),
        probe_step(p3, StatusReply::ResolvedAddress(lookup), p4),
    ensures
        p4 matches StatusProbe::Finished(Ok(report)) && report.version == version && report.state
            == state_of_code(state) && report.fqdn == fqdn && (report.local_address is Some <==> lookup is Ok)
            && (lookup matches Ok(a) ==> report.local_address == Some(a)),
{
}

} // verus!
