//! What the `publish` command decides before and while it keeps records on
//! the network.

use crate::avahi::{state_label, AvahiState, AvahiStatus};
use crate::clock::duration_nanos;
use std::time::Duration;
use crate::published_apps::{
    after_call, after_calls, law_calls_compose, law_removals_untrack, poll_states, poll_withdraws,
    removals, string_views, unpublished, App, PublishedApps, TrackerCall,
};
use vstd::prelude::*;

verus! {

/// Why records cannot be published with the daemon as it is.
#[derive(Debug, PartialEq, Eq, Structural)]
pub enum PublishSetupError {
    /// Avahi is in some state other than running.
    NotRunning(AvahiState),
    /// Avahi could not resolve this host to an IPv4 address.
    NoLocalAddress,
}

/// The text that a setup error is shown as.
pub open spec fn setup_error_message(err: PublishSetupError) -> Seq<char> {
    match err {
        PublishSetupError::NotRunning(state) => "Avahi is not running (state: "@ + state_label(state)
            + ")"@,
        PublishSetupError::NoLocalAddress => "could not determine local IP address from Avahi"@,
    }
}

impl PublishSetupError {
    /// The text that the error is shown as.
    pub fn message(&self) -> (text: String)
        ensures
            text@ == setup_error_message(*self),
    {
        match self {
            PublishSetupError::NotRunning(state) => {
                let mut text = String::from_str("Avahi is not running (state: ");
                text.append(state.label());
                text.append(")");
                text
            },
            PublishSetupError::NoLocalAddress => String::from_str(
                "could not determine local IP address from Avahi",
            ),
        }
    }
}

/// The address that the records of this host are to point to: the local
/// address that Avahi resolved, provided that Avahi is running.
pub fn record_address(status: &AvahiStatus) -> (address: Result<String, PublishSetupError>)
    ensures
        match address {
            Ok(a) => status.state == AvahiState::Running && status.local_address == Some(a),
            Err(PublishSetupError::NotRunning(state)) => status.state != AvahiState::Running && state
                == status.state,
            Err(PublishSetupError::NoLocalAddress) => status.state == AvahiState::Running
                && status.local_address is None,
        },
{
    if !status.is_running() {
        return Err(PublishSetupError::NotRunning(status.state));
    }
    match &status.local_address {
        Some(a) => Ok(a.clone()),
        None => Err(PublishSetupError::NoLocalAddress),
    }
}

/// The mDNS name published for the app called `app_name` on `hostname`:
/// `<app>-<host>.local`.
pub fn record_name(app_name: &str, hostname: &str) -> (name: String)
    ensures
        name@ == app_name@ + "-"@ + hostname@ + ".local"@,
{
    let mut name = String::from_str(app_name);
    name.append("-");
    name.append(hostname);
    name.append(".local");
    name
}


/// A record that the publish loop is to put on the network.
#[derive(Debug)]
pub struct RecordRequest {
    pub app_name: String,
    pub record_name: String,
}

/// What one poll decides: the apps whose records were withdrawn (they are
/// no longer tracked), and the records to publish now.
#[derive(Debug)]
pub struct PollPlan {
    pub withdrawn: Vec<String>,
    pub to_publish: Vec<RecordRequest>,
}

/// `requests` asks, in order, for one record per app of `apps`, named after
/// the app and `hostname`.
pub open spec fn requests_for(apps: Seq<App>, hostname: Seq<char>, requests: Seq<RecordRequest>) -> bool {
    &&& requests.len() == apps.len()
    &&& forall|i: int|
        0 <= i < apps.len() ==> (#[trigger] requests[i]).app_name@ == apps[i].name@
            && requests[i].record_name@ == apps[i].name@ + "-"@ + hostname + ".local"@
}

impl<R> PublishedApps<R> {
    /// One poll of the publish loop on the apps found now: withdraws the
    /// records whose grace period has run out and stops tracking them, then
    /// lists the records to publish for apps that have none.
    pub fn poll(&mut self, current: &[App]) -> (plan: PollPlan)
        requires
            old(self).wf(),
        ensures
            final(self).wf(),
            final(self).grace_period_nanos() == old(self).grace_period_nanos(),
            final(self).address_view() == old(self).address_view(),
            final(self).hostname_view() == old(self).hostname_view(),
            exists|now: u128|
                poll_withdraws(
                    old(self).states(),
                    current@,
                    now,
                    old(self).grace_period_nanos(),
                    string_views(plan.withdrawn@),
                ) && final(self).states() == (#[trigger] poll_states(old(self).states(), current@, now)).remove_keys(
                    string_views(plan.withdrawn@).to_set(),
                ) && final(self).tracker_view() == after_calls(
                    old(self).tracker_view(),
                    seq![TrackerCall::Poll(current@, now)] + removals(string_views(plan.withdrawn@)),
                ),
            exists|elapsed: Duration|
                poll_withdraws(
                    old(self).states(),
                    current@,
                    duration_nanos(elapsed),
                    old(self).grace_period_nanos(),
                    string_views(plan.withdrawn@),
                ) && final(self).states() == (#[trigger] poll_states(
                    old(self).states(),
                    current@,
                    duration_nanos(elapsed),
                )).remove_keys(string_views(plan.withdrawn@).to_set()) && final(self).tracker_view()
                    == after_calls(
                    old(self).tracker_view(),
                    seq![TrackerCall::Poll(current@, duration_nanos(elapsed))] + removals(
                        string_views(plan.withdrawn@),
                    ),
                ),
            final(self).records() == old(self).records().remove_keys(string_views(plan.withdrawn@).to_set()),
            requests_for(
                unpublished(final(self).states(), current@),
                old(self).hostname_view(),
                plan.to_publish@,
            ),
    {
        let withdrawn = self.to_withdraw(current);
        let ghost views = string_views(withdrawn@);
        let ghost elapsed = choose|elapsed: Duration|
            self.states() == #[trigger] poll_states(
                old(self).states(),
                current@,
                duration_nanos(elapsed),
            ) && self.tracker_view() == after_call(
                old(self).tracker_view(),
                TrackerCall::Poll(current@, duration_nanos(elapsed)),
            ) && poll_withdraws(
                old(self).states(),
                current@,
                duration_nanos(elapsed),
                old(self).grace_period_nanos(),
                views,
            );
        let ghost now = duration_nanos(elapsed);
        let ghost polled = self.states();
        let ghost kept = self.records();
        assert(polled.remove_keys(views.take(0).to_set()) =~= polled);
        assert(kept.remove_keys(views.take(0).to_set()) =~= kept);
        let mut j: usize = 0;
        while j < withdrawn.len()
            invariant
                self.wf(),
                j <= withdrawn@.len(),
                views == string_views(withdrawn@),
                self.states() == polled.remove_keys(views.take(j as int).to_set()),
                self.records() == kept.remove_keys(views.take(j as int).to_set()),
                self.grace_period_nanos() == old(self).grace_period_nanos(),
                self.address_view() == old(self).address_view(),
                self.hostname_view() == old(self).hostname_view(),
            decreases withdrawn@.len() - j,
        {
            let ghost states_before = self.states();
            let ghost records_before = self.records();
            self.remove(withdrawn[j].as_str());
            proof {
                assert(views[j as int] == withdrawn@[j as int]@);
                assert(views.take(j + 1) =~= views.take(j as int) + seq![views[j as int]]);
                Seq::lemma_to_set_insert_commutes(views.take(j as int), views[j as int]);
                assert(states_before.remove(views[j as int]) =~= polled.remove_keys(views.take(j + 1).to_set()));
                assert(records_before.remove(views[j as int]) =~= kept.remove_keys(views.take(j + 1).to_set()));
            }
            j += 1;
        }
        assert(views.take(withdrawn@.len() as int) =~= views);
        let fresh = self.to_publish(current);
        let ghost fresh_apps = fresh@.map_values(|a: &App| *a);
        let mut to_publish: Vec<RecordRequest> = Vec::new();
        let mut i: usize = 0;
        while i < fresh.len()
            invariant
                i <= fresh@.len(),
                fresh_apps == fresh@.map_values(|a: &App| *a),
                to_publish@.len() == i,
                forall|m: int|
                    0 <= m < i ==> (#[trigger] to_publish@[m]).app_name@ == fresh_apps[m].name@
                        && to_publish@[m].record_name@ == fresh_apps[m].name@ + "-"@
                        + self.hostname_view() + ".local"@,
            decreases fresh@.len() - i,
        {
            let app = fresh[i];
            assert(fresh_apps[i as int] == *app);
            let request = RecordRequest {
                app_name: app.name.clone(),
                record_name: record_name(app.name.as_str(), self.hostname()),
            };
            to_publish.push(request);
            i += 1;
        }
        proof {
            let polled = seq![TrackerCall::Poll(current@, now)];
            let start = old(self).tracker_view();
            law_calls_compose(start, polled, removals(string_views(withdrawn@)));
            assert(polled.drop_last() =~= Seq::<TrackerCall>::empty());
            assert(after_calls(start, polled.drop_last()) == start);
            assert(after_calls(start, polled) == after_call(start, TrackerCall::Poll(current@, now)));
            law_removals_untrack(after_calls(start, polled), string_views(withdrawn@));
        }
        assert(poll_withdraws(
            old(self).states(),
            current@,
            now,
            old(self).grace_period_nanos(),
            string_views(withdrawn@),
        ) && self.states() == poll_states(old(self).states(), current@, now).remove_keys(
            string_views(withdrawn@).to_set(),
        ));
        PollPlan { withdrawn, to_publish }
    }
}

} // verus!
