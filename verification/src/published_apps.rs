//! Which apps currently have an active mDNS record, and when a record of an
//! app that has disappeared is due to be withdrawn.

use crate::clock::{duration_as_nanos, duration_nanos, instant_elapsed, instant_now};
use std::time::{Duration, Instant};
use vstd::prelude::*;

verus! {

/// An installed Co-op Cloud app, as far as publishing its record goes.
#[derive(Debug, Clone)]
pub struct App {
    pub name: String,
}

/// Where the record of a tracked app stands.
#[derive(Debug, Clone, Copy, PartialEq, Eq, Structural)]
pub enum AppState {
    /// The record is active and the app is present.
    Published,
    /// The app was found absent at the given clock reading (nanoseconds since
    /// the tracker was created); the record is kept until the grace period
    /// expires.
    PendingWithdrawal(u128),
}

struct PublishedApp<R> {
    name: String,
    /// Held only so that the record stays alive while it is tracked.
    record: R,
    state: AppState,
}

/// Tracks which apps currently have active mDNS records for one host
/// address and hostname.
///
/// The type parameter `R` is the handle that keeps a published record alive.
pub struct PublishedApps<R> {
    entries: Vec<PublishedApp<R>>,
    grace_nanos: u128,
    origin: Instant,
    address: String,
    hostname: String,
}

/// `apps` lists an app called `name`.
pub open spec fn lists_app(apps: Seq<App>, name: Seq<char>) -> bool {
    exists|i: int| 0 <= i < apps.len() && #[trigger] apps[i].name@ == name
}

/// Time from `since` to `now`, zero when the clock reads earlier than `since`.
pub open spec fn elapsed(since: u128, now: u128) -> nat {
    if since <= now {
        (now - since) as nat
    } else {
        0
    }
}

/// The state of a tracked app after a poll at `now` that found it present
/// or absent.
pub open spec fn next_state(state: AppState, present: bool, now: u128) -> AppState {
    if present {
        AppState::Published
    } else {
        match state {
            AppState::Published => AppState::PendingWithdrawal(now),
            AppState::PendingWithdrawal(since) => AppState::PendingWithdrawal(since),
        }
    }
}

/// Whether a poll at `now` withdraws the record of a tracked app: it is
/// absent, and it was already absent at an earlier poll at least `grace`
/// nanoseconds ago.
pub open spec fn due(state: AppState, present: bool, now: u128, grace: u128) -> bool {
    !present && match state {
        AppState::Published => false,
        AppState::PendingWithdrawal(since) => elapsed(since, now) >= grace,
    }
}

/// The states of all tracked apps after a poll at `now` that found `apps`.
pub open spec fn poll_states(states: Map<Seq<char>, AppState>, apps: Seq<App>, now: u128) -> Map<
    Seq<char>,
    AppState,
> {
    Map::new(
        |k: Seq<char>| states.contains_key(k),
        |k: Seq<char>| next_state(states[k], lists_app(apps, k), now),
    )
}

/// `withdrawn` names, once each, exactly the tracked apps that a poll at
/// `now` that found `apps` withdraws.
pub open spec fn poll_withdraws(
    states: Map<Seq<char>, AppState>,
    apps: Seq<App>,
    now: u128,
    grace: u128,
    withdrawn: Seq<Seq<char>>,
) -> bool {
    &&& withdrawn.no_duplicates()
    &&& forall|k: Seq<char>|
        withdrawn.contains(k) <==> (states.contains_key(k) && due(
            states[k],
            lists_app(apps, k),
            now,
            grace,
        ))
}

/// What a tracker's calls read and change, as plain values: the state of
/// each tracked app, the grace period, and the address and hostname that
/// the records are for.
pub struct TrackerView {
    pub states: Map<Seq<char>, AppState>,
    pub grace: u128,
    pub address: Seq<char>,
    pub hostname: Seq<char>,
}

/// A call that changes a tracker: `insert`, `remove`, or a poll
/// (`to_withdraw_at`, or `to_withdraw` at its clock reading).
pub enum TrackerCall {
    Insert(Seq<char>),
    Remove(Seq<char>),
    Poll(Seq<App>, u128),
}

/// The tracker after one call.
pub open spec fn after_call(v: TrackerView, call: TrackerCall) -> TrackerView {
    TrackerView {
        states: match call {
            TrackerCall::Insert(name) => v.states.insert(name, AppState::Published),
            TrackerCall::Remove(name) => v.states.remove(name),
            TrackerCall::Poll(apps, now) => poll_states(v.states, apps, now),
        },
        grace: v.grace,
        address: v.address,
        hostname: v.hostname,
    }
}

/// The tracker after a run of calls, in order.
pub open spec fn after_calls(v: TrackerView, calls: Seq<TrackerCall>) -> TrackerView
    decreases calls.len(),
{
    if calls.len() == 0 {
        v
    } else {
        after_call(after_calls(v, calls.drop_last()), calls.last())
    }
}

/// The call inserts or removes the app called `name`.
pub open spec fn touches(call: TrackerCall, name: Seq<char>) -> bool {
    match call {
        TrackerCall::Insert(n) => n == name,
        TrackerCall::Remove(n) => n == name,
        TrackerCall::Poll(..) => false,
    }
}

/// The call is not a poll that finds the app called `name`.
pub open spec fn misses(call: TrackerCall, name: Seq<char>) -> bool {
    match call {
        TrackerCall::Poll(apps, _) => !lists_app(apps, name),
        _ => true,
    }
}

/// The clock reading of a poll.
pub open spec fn poll_time(call: TrackerCall) -> u128 {
    match call {
        TrackerCall::Poll(_, now) => now,
        _ => 0,
    }
}

/// The last call of a run that inserts or removes the app called `name`.
pub open spec fn last_touch(calls: Seq<TrackerCall>, name: Seq<char>) -> Option<TrackerCall>
    decreases calls.len(),
{
    if calls.len() == 0 {
        None
    } else if touches(calls.last(), name) {
        Some(calls.last())
    } else {
        last_touch(calls.drop_last(), name)
    }
}

/// One remove per name, in order.
pub open spec fn removals(names: Seq<Seq<char>>) -> Seq<TrackerCall> {
    names.map_values(|n: Seq<char>| TrackerCall::Remove(n))
}

/// One insert per name, in order.
pub open spec fn insertions(names: Seq<Seq<char>>) -> Seq<TrackerCall> {
    names.map_values(|n: Seq<char>| TrackerCall::Insert(n))
}

/// The calls of one tick of the publish loop: a poll at `now` that found
/// `apps`, the removal of the `withdrawn` apps, and the insertion of the
/// apps whose records were `published` on that tick.
pub open spec fn tick_calls(
    apps: Seq<App>,
    now: u128,
    withdrawn: Seq<Seq<char>>,
    published: Seq<Seq<char>>,
) -> Seq<TrackerCall> {
    seq![TrackerCall::Poll(apps, now)] + removals(withdrawn) + insertions(published)
}

/// Call `k` of the run is a poll that withdraws the record of `name`.
pub open spec fn withdraws_at(v: TrackerView, calls: Seq<TrackerCall>, k: int, name: Seq<char>) -> bool {
    let before = after_calls(v, calls.take(k));
    &&& calls[k] is Poll
    &&& before.states.contains_key(name)
    &&& due(before.states[name], !misses(calls[k], name), poll_time(calls[k]), before.grace)
}

/// The character sequences of a list of strings.
pub open spec fn string_views(names: Seq<String>) -> Seq<Seq<char>> {
    names.map_values(|s: String| s@)
}

/// The apps of `apps` that have no tracked record, in their order.
pub open spec fn unpublished(states: Map<Seq<char>, AppState>, apps: Seq<App>) -> Seq<App> {
    apps.filter(|a: App| !states.contains_key(a.name@))
}

spec fn names_distinct<R>(s: Seq<PublishedApp<R>>) -> bool {
    forall|i: int, j: int|
        0 <= i < s.len() && 0 <= j < s.len() && i != j ==> #[trigger] s[i].name@ != #[trigger] s[j].name@
}

spec fn has_name<R>(s: Seq<PublishedApp<R>>, k: Seq<char>) -> bool {
    exists|i: int| 0 <= i < s.len() && #[trigger] s[i].name@ == k
}

spec fn entry_map<R>(s: Seq<PublishedApp<R>>) -> Map<Seq<char>, PublishedApp<R>> {
    Map::new(
        |k: Seq<char>| has_name(s, k),
        |k: Seq<char>| s[choose|i: int| 0 <= i < s.len() && #[trigger] s[i].name@ == k],
    )
}

spec fn due_at<R>(s: Seq<PublishedApp<R>>, apps: Seq<App>, now: u128, grace: u128, j: int) -> bool {
    due(s[j].state, lists_app(apps, s[j].name@), now, grace)
}

/// `w` names, once each, exactly the entries among the first `i` of `s`
/// that a poll at `now` withdraws; `w[m]` is the name of entry `idx[m]`.
#[verifier::opaque]
spec fn tracks_withdrawn<R>(
    s: Seq<PublishedApp<R>>,
    apps: Seq<App>,
    now: u128,
    grace: u128,
    i: int,
    w: Seq<String>,
    idx: Seq<int>,
) -> bool {
    &&& idx.len() == w.len()
    &&& forall|m: int|
        0 <= m < w.len() ==> 0 <= #[trigger] idx[m] < i && s[idx[m]].name@ == w[m]@ && due_at(
            s,
            apps,
            now,
            grace,
            idx[m],
        )
    &&& forall|j: int|
        0 <= j < i && #[trigger] due_at(s, apps, now, grace, j) ==> string_views(w).contains(s[j].name@)
    &&& string_views(w).no_duplicates()
}

proof fn lemma_tracks_step<R>(
    s: Seq<PublishedApp<R>>,
    apps: Seq<App>,
    now: u128,
    grace: u128,
    i: int,
    w: Seq<String>,
    idx: Seq<int>,
)
    requires
        names_distinct(s),
        0 <= i < s.len(),
        tracks_withdrawn(s, apps, now, grace, i, w, idx),
    ensures
        due_at(s, apps, now, grace, i) ==> tracks_withdrawn(
            s,
            apps,
            now,
            grace,
            i + 1,
            w.push(s[i].name),
            idx.push(i),
        ),
        !due_at(s, apps, now, grace, i) ==> tracks_withdrawn(s, apps, now, grace, i + 1, w, idx),
{
    reveal(tracks_withdrawn);
    let views = string_views(w);
    if due_at(s, apps, now, grace, i) {
        let w2 = w.push(s[i].name);
        let idx2 = idx.push(i);
        let views2 = string_views(w2);
        assert(views2 =~= views.push(s[i].name@));
        assert forall|m: int| 0 <= m < w2.len() implies 0 <= #[trigger] idx2[m] < i + 1 && s[idx2[m]].name@
            == w2[m]@ && due_at(s, apps, now, grace, idx2[m]) by {
            if m < w.len() {
                assert(idx2[m] == idx[m]);
                assert(w2[m] == w[m]);
            }
        }
        assert forall|j: int| 0 <= j < i + 1 && #[trigger] due_at(s, apps, now, grace, j) implies views2.contains(
            s[j].name@,
        ) by {
            if j < i {
                let m = choose|m: int| 0 <= m < views.len() && views[m] == s[j].name@;
                assert(views2[m] == views[m]);
            } else {
                assert(views2[views.len() as int] == s[j].name@);
            }
        }
        assert forall|a: int, b: int| 0 <= a < views2.len() && 0 <= b < views2.len() && a != b implies views2[a]
            != views2[b] by {
            if a < views.len() && b < views.len() {
            } else if a < views.len() {
                assert(views[a] == w[a]@);
                assert(idx[a] < i);
                assert(s[idx[a]].name@ != s[i].name@);
            } else {
                assert(views[b] == w[b]@);
                assert(idx[b] < i);
                assert(s[idx[b]].name@ != s[i].name@);
            }
        }
    }
}

proof fn lemma_tracks_complete<R>(
    s: Seq<PublishedApp<R>>,
    apps: Seq<App>,
    now: u128,
    grace: u128,
    w: Seq<String>,
    idx: Seq<int>,
)
    requires
        names_distinct(s),
        tracks_withdrawn(s, apps, now, grace, s.len() as int, w, idx),
    ensures
        string_views(w).no_duplicates(),
        forall|k: Seq<char>|
            string_views(w).contains(k) <==> (entry_map(s).contains_key(k) && due(
                entry_map(s)[k].state,
                lists_app(apps, k),
                now,
                grace,
            )),
{
    reveal(tracks_withdrawn);
    let views = string_views(w);
    assert forall|k: Seq<char>|
        views.contains(k) <==> (entry_map(s).contains_key(k) && due(
            entry_map(s)[k].state,
            lists_app(apps, k),
            now,
            grace,
        )) by {
        if views.contains(k) {
            let m = choose|m: int| 0 <= m < views.len() && views[m] == k;
            assert(views[m] == w[m]@);
            let j = idx[m];
            lemma_entry_at(s, j);
        }
        if entry_map(s).contains_key(k) && due(entry_map(s)[k].state, lists_app(apps, k), now, grace) {
            let j = choose|j: int| 0 <= j < s.len() && #[trigger] s[j].name@ == k;
            lemma_entry_at(s, j);
            assert(due_at(s, apps, now, grace, j));
        }
    }
}

/// Whether `apps` lists an app called `name`.
fn lists(apps: &[App], name: &String) -> (found: bool)
    ensures
        found == lists_app(apps@, name@),
{
    let mut i: usize = 0;
    while i < apps.len()
        invariant
            i <= apps@.len(),
            forall|j: int| 0 <= j < i ==> (#[trigger] apps@[j]).name@ != name@,
        decreases apps@.len() - i,
    {
        if apps[i].name == *name {
            return true;
        }
        i += 1;
    }
    false
}

proof fn lemma_entry_at<R>(s: Seq<PublishedApp<R>>, i: int)
    requires
        names_distinct(s),
        0 <= i < s.len(),
    ensures
        entry_map(s).contains_key(s[i].name@),
        entry_map(s)[s[i].name@] == s[i],
{
    assert(has_name(s, s[i].name@));
    let j = choose|j: int| 0 <= j < s.len() && #[trigger] s[j].name@ == s[i].name@;
    assert(j == i);
}

proof fn lemma_entry_map_is<R>(s: Seq<PublishedApp<R>>, m: Map<Seq<char>, PublishedApp<R>>)
    requires
        names_distinct(s),
        forall|k: Seq<char>| m.contains_key(k) <==> has_name(s, k),
        forall|i: int| 0 <= i < s.len() ==> m[#[trigger] s[i].name@] == s[i],
    ensures
        entry_map(s) == m,
{
    assert forall|k: Seq<char>| entry_map(s).contains_key(k) implies entry_map(s)[k] == m[k] by {
        let i = choose|i: int| 0 <= i < s.len() && #[trigger] s[i].name@ == k;
        lemma_entry_at(s, i);
    }
    assert(entry_map(s) =~= m);
}

impl<R> PublishedApps<R> {
    /// No two tracked entries carry the same app name.
    pub closed spec fn wf(&self) -> bool {
        names_distinct(self.entries@)
    }

    /// The state of each tracked app, by name.
    pub closed spec fn states(&self) -> Map<Seq<char>, AppState> {
        entry_map(self.entries@).map_values(|e: PublishedApp<R>| e.state)
    }

    /// The record handle of each tracked app, by name.
    pub closed spec fn records(&self) -> Map<Seq<char>, R> {
        entry_map(self.entries@).map_values(|e: PublishedApp<R>| e.record)
    }

    /// How long an app must stay absent before its record is withdrawn, in
    /// nanoseconds.
    pub closed spec fn grace_period_nanos(&self) -> u128 {
        self.grace_nanos
    }

    /// The host address that the records point to.
    pub closed spec fn address_view(&self) -> Seq<char> {
        self.address@
    }

    /// The hostname that the record names are built from.
    pub closed spec fn hostname_view(&self) -> Seq<char> {
        self.hostname@
    }

    /// The tracker as plain values.
    pub open spec fn tracker_view(&self) -> TrackerView {
        TrackerView {
            states: self.states(),
            grace: self.grace_period_nanos(),
            address: self.address_view(),
            hostname: self.hostname_view(),
        }
    }

    /// A tracker with nothing published, whose grace period is `grace_period`.
    pub fn new(grace_period: Duration, address: String, hostname: String) -> (tracker: Self)
        ensures
            tracker.wf(),
            tracker.states() == Map::<Seq<char>, AppState>::empty(),
            tracker.records() == Map::<Seq<char>, R>::empty(),
            tracker.grace_period_nanos() == duration_nanos(grace_period),
            tracker.address_view() == address@,
            tracker.hostname_view() == hostname@,
    {
        let grace_nanos = duration_as_nanos(&grace_period);
        Self::with_grace_nanos(grace_nanos, address, hostname)
    }

    /// A tracker with nothing published, whose grace period is `grace_nanos`
    /// nanoseconds.
    pub fn with_grace_nanos(grace_nanos: u128, address: String, hostname: String) -> (tracker: Self)
        ensures
            tracker.wf(),
            tracker.states() == Map::<Seq<char>, AppState>::empty(),
            tracker.records() == Map::<Seq<char>, R>::empty(),
            tracker.grace_period_nanos() == grace_nanos,
            tracker.address_view() == address@,
            tracker.hostname_view() == hostname@,
    {
        let tracker = PublishedApps {
            entries: Vec::new(),
            grace_nanos,
            origin: instant_now(),
            address,
            hostname,
        };
        assert(tracker.states() =~= Map::<Seq<char>, AppState>::empty());
        assert(tracker.records() =~= Map::<Seq<char>, R>::empty());
        tracker
    }

    /// The host address that the records point to.
    pub fn address(&self) -> (address: &str)
        ensures
            address@ == self.address_view(),
    {
        self.address.as_str()
    }

    /// The hostname that the record names are built from.
    pub fn hostname(&self) -> (hostname: &str)
        ensures
            hostname@ == self.hostname_view(),
    {
        self.hostname.as_str()
    }

    /// Returns `true` if both `addr` and `hostname` match what this instance
    /// was created for.
    pub fn matches(&self, addr: &str, hostname: &str) -> (same: bool)
        ensures
            same == (self.address_view() == addr@ && self.hostname_view() == hostname@),
    {
        self.address == addr.to_owned() && self.hostname == hostname.to_owned()
    }

    /// Where the entry of the app called `name` stands, if it is tracked.
    fn position_of(&self, name: &str) -> (pos: Option<usize>)
        ensures
            match pos {
                Some(i) => i < self.entries@.len() && self.entries@[i as int].name@ == name@,
                None => !has_name(self.entries@, name@),
            },
    {
        let wanted = name.to_owned();
        let mut i: usize = 0;
        while i < self.entries.len()
            invariant
                i <= self.entries@.len(),
                wanted@ == name@,
                forall|j: int| 0 <= j < i ==> #[trigger] self.entries@[j].name@ != name@,
            decreases self.entries@.len() - i,
        {
            if self.entries[i].name == wanted {
                return Some(i);
            }
            i += 1;
        }
        None
    }

    /// Tracks `name` as published, holding `record`; an entry the app
    /// already had is replaced.
    pub fn insert(&mut self, name: String, record: R)
        requires
            old(self).wf(),
        ensures
            final(self).wf(),
            final(self).tracker_view() == after_call(old(self).tracker_view(), TrackerCall::Insert(name@)),
            final(self).states() == old(self).states().insert(name@, AppState::Published),
            final(self).records() == old(self).records().insert(name@, record),
            final(self).grace_period_nanos() == old(self).grace_period_nanos(),
            final(self).address_view() == old(self).address_view(),
            final(self).hostname_view() == old(self).hostname_view(),
    {
        let ghost before = self.entries@;
        let pos = self.position_of(name.as_str());
        let ghost key = name@;
        let entry = PublishedApp { name, record, state: AppState::Published };
        let ghost target = entry_map(before).insert(key, entry);
        match pos {
            Some(i) => {
                self.entries.set(i, entry);
                proof {
                    let after = self.entries@;
                    assert(after == before.update(i as int, entry));
                    assert forall|a: int, b: int|
                        0 <= a < after.len() && 0 <= b < after.len() && a != b implies
                        #[trigger] after[a].name@ != #[trigger] after[b].name@ by {
                        assert(before[a].name@ != before[b].name@);
                    }
                    assert forall|k: Seq<char>| target.contains_key(k) <==> has_name(after, k) by {
                        if has_name(before, k) {
                            let j = choose|j: int| 0 <= j < before.len() && #[trigger] before[j].name@ == k;
                            assert(after[j].name@ == k);
                        }
                        if has_name(after, k) {
                            let j = choose|j: int| 0 <= j < after.len() && #[trigger] after[j].name@ == k;
                            if j != i {
                                assert(before[j].name@ == k);
                            }
                        }
                    }
                    assert forall|j: int| 0 <= j < after.len() implies target[#[trigger] after[j].name@] == after[j] by {
                        if j != i {
                            lemma_entry_at(before, j);
                            assert(before[j].name@ != before[i as int].name@);
                        }
                    }
                    lemma_entry_map_is(after, target);
                }
            },
            None => {
                self.entries.push(entry);
                proof {
                    let after = self.entries@;
                    assert forall|a: int, b: int|
                        0 <= a < after.len() && 0 <= b < after.len() && a != b implies
                        #[trigger] after[a].name@ != #[trigger] after[b].name@ by {
                        if a < before.len() && b < before.len() {
                            assert(before[a].name@ != before[b].name@);
                        } else if a < before.len() {
                            assert(before[a].name@ != key);
                        } else {
                            assert(before[b].name@ != key);
                        }
                    }
                    assert forall|k: Seq<char>| target.contains_key(k) <==> has_name(after, k) by {
                        if has_name(before, k) {
                            let j = choose|j: int| 0 <= j < before.len() && #[trigger] before[j].name@ == k;
                            assert(after[j].name@ == k);
                        }
                        if k == key {
                            assert(after[before.len() as int].name@ == k);
                        }
                        if has_name(after, k) {
                            let j = choose|j: int| 0 <= j < after.len() && #[trigger] after[j].name@ == k;
                            if j < before.len() {
                                assert(before[j].name@ == k);
                            }
                        }
                    }
                    assert forall|j: int| 0 <= j < after.len() implies target[#[trigger] after[j].name@] == after[j] by {
                        if j < before.len() {
                            lemma_entry_at(before, j);
                            assert(before[j].name@ != key);
                        }
                    }
                    lemma_entry_map_is(after, target);
                }
            },
        }
        assert(self.states() =~= old(self).states().insert(key, AppState::Published));
        assert(self.records() =~= old(self).records().insert(key, record));
    }

    /// Apps in `current` that do not yet have a published record.
    pub fn to_publish<'a>(&self, current: &'a [App]) -> (fresh: Vec<&'a App>)
        requires
            self.wf(),
        ensures
            fresh@.map_values(|a: &App| *a) == unpublished(self.states(), current@),
    {
        let ghost pred = |a: App| !self.states().contains_key(a.name@);
        let mut fresh: Vec<&'a App> = Vec::new();
        let mut i: usize = 0;
        while i < current.len()
            invariant
                self.wf(),
                i <= current@.len(),
                pred == (|a: App| !self.states().contains_key(a.name@)),
                fresh@.map_values(|a: &App| *a) == current@.take(i as int).filter(pred),
            decreases current@.len() - i,
        {
            let app = &current[i];
            let pos = self.position_of(app.name.as_str());
            let tracked_already = pos.is_some();
            proof {
                if let Some(j) = pos {
                    assert(self.entries@[j as int].name@ == app.name@);
                }
                assert(self.states().contains_key(app.name@) == has_name(self.entries@, app.name@));
                assert(pred(*app) == !tracked_already);
                assert(current@.take(i + 1) =~= current@.take(i as int).push(*app));
                current@.take(i as int).lemma_filter_push(*app, pred);
            }
            if !tracked_already {
                let ghost prev = fresh@;
                fresh.push(app);
                assert(fresh@.map_values(|a: &App| *a) =~= prev.map_values(|a: &App| *a).push(*app));
            }
            i += 1;
        }
        assert(current@.take(current@.len() as int) =~= current@);
        fresh
    }

    /// Names of apps whose grace period has expired and whose records should
    /// now be withdrawn, at the clock reading `now`.
    /// Also moves newly absent apps to `PendingWithdrawal(now)` and restores
    /// reappearing apps to `Published`.
    pub fn to_withdraw_at(&mut self, current: &[App], now: u128) -> (withdrawn: Vec<String>)
        requires
            old(self).wf(),
        ensures
            final(self).wf(),
            final(self).tracker_view() == after_call(old(self).tracker_view(), TrackerCall::Poll(current@, now)),
            final(self).states() == poll_states(old(self).states(), current@, now),
            final(self).records() == old(self).records(),
            final(self).grace_period_nanos() == old(self).grace_period_nanos(),
            final(self).address_view() == old(self).address_view(),
            final(self).hostname_view() == old(self).hostname_view(),
            poll_withdraws(
                old(self).states(),
                current@,
                now,
                old(self).grace_period_nanos(),
                string_views(withdrawn@),
            ),
    {
        let ghost before = self.entries@;
        let grace = self.grace_nanos;
        let mut withdrawn: Vec<String> = Vec::new();
        let mut i: usize = 0;
        let ghost mut idx: Seq<int> = Seq::empty();
        assert(tracks_withdrawn(before, current@, now, grace, 0, withdrawn@, idx)) by {
            reveal(tracks_withdrawn);
        }
        while i < self.entries.len()
            invariant
                names_distinct(before),
                self.entries@.len() == before.len(),
                i <= before.len(),
                grace == self.grace_nanos,
                grace == old(self).grace_nanos,
                self.address == old(self).address,
                self.hostname == old(self).hostname,
                before == old(self).entries@,
                forall|j: int|
                    0 <= j < before.len() ==> (#[trigger] self.entries@[j]).name == before[j].name
                        && self.entries@[j].record == before[j].record,
                forall|j: int|
                    0 <= j < i ==> (#[trigger] self.entries@[j]).state == next_state(
                        before[j].state,
                        lists_app(current@, before[j].name@),
                        now,
                    ),
                forall|j: int| i <= j < before.len() ==> (#[trigger] self.entries@[j]).state == before[j].state,
                tracks_withdrawn(before, current@, now, grace, i as int, withdrawn@, idx),
            decreases before.len() - i,
        {
            let present = lists(current, &self.entries[i].name);
            let state = self.entries[i].state;
            let is_due = !present && match state {
                AppState::Published => false,
                AppState::PendingWithdrawal(since) => {
                    let gone_for: u128 = if since <= now {
                        now - since
                    } else {
                        0
                    };
                    gone_for >= grace
                },
            };
            let next = if present {
                AppState::Published
            } else {
                match state {
                    AppState::Published => AppState::PendingWithdrawal(now),
                    AppState::PendingWithdrawal(since) => AppState::PendingWithdrawal(since),
                }
            };
            assert(is_due == due_at(before, current@, now, grace, i as int));
            proof {
                lemma_tracks_step(before, current@, now, grace, i as int, withdrawn@, idx);
            }
            if is_due {
                let name = self.entries[i].name.clone();
                withdrawn.push(name);
                proof {
                    idx = idx.push(i as int);
                }
            }
            self.entries[i].state = next;
            i += 1;
        }
        proof {
            let after = self.entries@;
            let target = Map::new(
                |k: Seq<char>| has_name(before, k),
                |k: Seq<char>|
                    PublishedApp {
                        name: entry_map(before)[k].name,
                        record: entry_map(before)[k].record,
                        state: next_state(entry_map(before)[k].state, lists_app(current@, k), now),
                    },
            );
            assert forall|a: int, b: int|
                0 <= a < after.len() && 0 <= b < after.len() && a != b implies #[trigger] after[a].name@
                != #[trigger] after[b].name@ by {
                assert(before[a].name@ != before[b].name@);
            }
            assert forall|k: Seq<char>| target.contains_key(k) <==> has_name(after, k) by {
                if has_name(before, k) {
                    let j = choose|j: int| 0 <= j < before.len() && #[trigger] before[j].name@ == k;
                    assert(after[j].name@ == k);
                }
                if has_name(after, k) {
                    let j = choose|j: int| 0 <= j < after.len() && #[trigger] after[j].name@ == k;
                    assert(before[j].name@ == k);
                }
            }
            assert forall|j: int| 0 <= j < after.len() implies target[#[trigger] after[j].name@] == after[j] by {
                lemma_entry_at(before, j);
                assert(after[j].name == before[j].name);
                assert(has_name(before, after[j].name@));
            }
            lemma_entry_map_is(after, target);
            assert(self.states() =~= poll_states(old(self).states(), current@, now));
            assert(self.records() =~= old(self).records());
            lemma_tracks_complete(before, current@, now, grace, withdrawn@, idx);
        }
        withdrawn
    }

    /// Names of apps whose grace period has expired and whose records should
    /// now be withdrawn. Also moves newly absent apps to `PendingWithdrawal`
    /// and restores reappearing apps to `Published`.
    ///
    /// The poll is taken at one reading of the tracker's monotonic clock: the
    /// time elapsed since the tracker was created, in nanoseconds, the unit of
    /// the grace period. The contract holds for whatever that reading is.
    pub fn to_withdraw(&mut self, current: &[App]) -> (withdrawn: Vec<String>)
        requires
            old(self).wf(),
        ensures
            final(self).wf(),
            final(self).records() == old(self).records(),
            final(self).grace_period_nanos() == old(self).grace_period_nanos(),
            final(self).address_view() == old(self).address_view(),
            final(self).hostname_view() == old(self).hostname_view(),
            exists|now: u128|
                final(self).states() == #[trigger] poll_states(old(self).states(), current@, now)
                    && final(self).tracker_view() == after_call(
                    old(self).tracker_view(),
                    TrackerCall::Poll(current@, now),
                ) && poll_withdraws(
                    old(self).states(),
                    current@,
                    now,
                    old(self).grace_period_nanos(),
                    string_views(withdrawn@),
                ),
            exists|elapsed: Duration|
                final(self).states() == #[trigger] poll_states(
                    old(self).states(),
                    current@,
                    duration_nanos(elapsed),
                ) && final(self).tracker_view() == after_call(
                    old(self).tracker_view(),
                    TrackerCall::Poll(current@, duration_nanos(elapsed)),
                ) && poll_withdraws(
                    old(self).states(),
                    current@,
                    duration_nanos(elapsed),
                    old(self).grace_period_nanos(),
                    string_views(withdrawn@),
                ),
    {
        let elapsed = instant_elapsed(&self.origin);
        let now = duration_as_nanos(&elapsed);
        self.to_withdraw_at(current, now)
    }

    /// Stops tracking the app called `name`, dropping its record.
    pub fn remove(&mut self, name: &str)
        requires
            old(self).wf(),
        ensures
            final(self).wf(),
            final(self).tracker_view() == after_call(old(self).tracker_view(), TrackerCall::Remove(name@)),
            final(self).states() == old(self).states().remove(name@),
            final(self).records() == old(self).records().remove(name@),
            final(self).grace_period_nanos() == old(self).grace_period_nanos(),
            final(self).address_view() == old(self).address_view(),
            final(self).hostname_view() == old(self).hostname_view(),
    {
        let ghost before = self.entries@;
        let ghost target = entry_map(before).remove(name@);
        match self.position_of(name) {
            Some(i) => {
                let _dropped = self.entries.remove(i);
                proof {
                    let after = self.entries@;
                    assert(after == before.remove(i as int));
                    assert forall|j: int| 0 <= j < after.len() implies #[trigger] after[j] == before[
                        if j < i { j } else { j + 1 }
                    ] by {}
                    assert forall|a: int, b: int|
                        0 <= a < after.len() && 0 <= b < after.len() && a != b implies
                        #[trigger] after[a].name@ != #[trigger] after[b].name@ by {
                        let a0 = if a < i { a } else { a + 1 };
                        let b0 = if b < i { b } else { b + 1 };
                        assert(before[a0].name@ != before[b0].name@);
                    }
                    assert forall|k: Seq<char>| target.contains_key(k) <==> has_name(after, k) by {
                        if has_name(before, k) && k != name@ {
                            let j = choose|j: int| 0 <= j < before.len() && #[trigger] before[j].name@ == k;
                            if j < i {
                                assert(after[j].name@ == k);
                            } else {
                                assert(after[j - 1].name@ == k);
                            }
                        }
                        if has_name(after, k) {
                            let j = choose|j: int| 0 <= j < after.len() && #[trigger] after[j].name@ == k;
                            let j0 = if j < i { j } else { j + 1 };
                            assert(before[j0].name@ == k);
                            assert(before[j0].name@ != before[i as int].name@);
                        }
                    }
                    assert forall|j: int| 0 <= j < after.len() implies target[#[trigger] after[j].name@] == after[j] by {
                        let j0 = if j < i { j } else { j + 1 };
                        lemma_entry_at(before, j0);
                        assert(before[j0].name@ != before[i as int].name@);
                    }
                    lemma_entry_map_is(after, target);
                }
            },
            None => {
                assert(entry_map(before) =~= target);
            },
        }
        assert(self.states() =~= old(self).states().remove(name@));
        assert(self.records() =~= old(self).records().remove(name@));
    }
}

/// A poll that finds a tracked app present never withdraws it, and puts
/// its record back to published.
pub proof fn law_present_app_is_kept(
    states: Map<Seq<char>, AppState>,
    apps: Seq<App>,
    now: u128,
    grace: u128,
    withdrawn: Seq<Seq<char>>,
    name: Seq<char>,
)
    requires
        poll_withdraws(states, apps, now, grace, withdrawn),
        states.contains_key(name),
        lists_app(apps, name),
    ensures
        !withdrawn.contains(name),
        poll_states(states, apps, now)[name] == AppState::Published,
{
}

/// The first poll that finds a published app absent never withdraws it;
/// the grace period starts at that poll's clock reading.
pub proof fn law_first_absence_starts_grace(
    states: Map<Seq<char>, AppState>,
    apps: Seq<App>,
    now: u128,
    grace: u128,
    withdrawn: Seq<Seq<char>>,
    name: Seq<char>,
)
    requires
        poll_withdraws(states, apps, now, grace, withdrawn),
        states.contains_key(name),
        states[name] == AppState::Published,
        !lists_app(apps, name),
    ensures
        !withdrawn.contains(name),
        poll_states(states, apps, now)[name] == AppState::PendingWithdrawal(now),
{
}

/// While an app stays absent its grace period keeps the time it started.
pub proof fn law_absence_keeps_start(
    states: Map<Seq<char>, AppState>,
    apps: Seq<App>,
    now: u128,
    since: u128,
    name: Seq<char>,
)
    requires
        states.contains_key(name),
        states[name] == AppState::PendingWithdrawal(since),
        !lists_app(apps, name),
    ensures
        poll_states(states, apps, now)[name] == AppState::PendingWithdrawal(since),
{
}

/// A record is withdrawn only once its app has been absent for the whole
/// grace period: an app published before a poll at `t1` and absent at that
/// poll and at a later one at `t2` is withdrawn at `t2` exactly when
/// `t2 - t1` reaches the grace period.
pub proof fn law_withdrawal_waits_for_grace(
    states: Map<Seq<char>, AppState>,
    apps1: Seq<App>,
    apps2: Seq<App>,
    t1: u128,
    t2: u128,
    grace: u128,
    withdrawn: Seq<Seq<char>>,
    name: Seq<char>,
)
    requires
        states.contains_key(name),
        states[name] == AppState::Published,
        !lists_app(apps1, name),
        !lists_app(apps2, name),
        t1 <= t2,
        poll_withdraws(poll_states(states, apps1, t1), apps2, t2, grace, withdrawn),
    ensures
        withdrawn.contains(name) <==> t2 - t1 >= grace,
{
}

/// With no grace period, an app found absent at two polls in a row is
/// withdrawn at the second, whatever the clock reads.
pub proof fn law_zero_grace_withdraws_at_second_absence(
    states: Map<Seq<char>, AppState>,
    apps1: Seq<App>,
    apps2: Seq<App>,
    t1: u128,
    t2: u128,
    withdrawn: Seq<Seq<char>>,
    name: Seq<char>,
)
    requires
        states.contains_key(name),
        !lists_app(apps1, name),
        !lists_app(apps2, name),
        poll_withdraws(poll_states(states, apps1, t1), apps2, t2, 0, withdrawn),
    ensures
        withdrawn.contains(name),
{
}

/// An app that reappears cancels its pending withdrawal: when it goes
/// absent again, a fresh grace period starts and that poll does not
/// withdraw it.
pub proof fn law_reappearance_restarts_grace(
    states: Map<Seq<char>, AppState>,
    apps1: Seq<App>,
    apps2: Seq<App>,
    apps3: Seq<App>,
    t1: u128,
    t2: u128,
    t3: u128,
    grace: u128,
    withdrawn: Seq<Seq<char>>,
    name: Seq<char>,
)
    requires
        states.contains_key(name),
        !lists_app(apps1, name),
        lists_app(apps2, name),
        !lists_app(apps3, name),
        grace > 0,
        poll_withdraws(poll_states(poll_states(states, apps1, t1), apps2, t2), apps3, t3, grace, withdrawn),
    ensures
        !withdrawn.contains(name),
        poll_states(poll_states(poll_states(states, apps1, t1), apps2, t2), apps3, t3)[name]
            == AppState::PendingWithdrawal(t3),
{
}

/// An app that is not tracked (never inserted, or removed) is never
/// withdrawn, and a poll does not start tracking it.
pub proof fn law_untracked_app_never_withdrawn(
    states: Map<Seq<char>, AppState>,
    apps: Seq<App>,
    now: u128,
    grace: u128,
    withdrawn: Seq<Seq<char>>,
    name: Seq<char>,
)
    requires
        poll_withdraws(states, apps, now, grace, withdrawn),
        !states.contains_key(name),
    ensures
        !withdrawn.contains(name),
        !poll_states(states, apps, now).contains_key(name),
{
}

/// A poll neither starts nor stops tracking any app.
pub proof fn law_poll_keeps_tracked_apps(states: Map<Seq<char>, AppState>, apps: Seq<App>, now: u128)
    ensures
        poll_states(states, apps, now).dom() == states.dom(),
{
    assert(poll_states(states, apps, now).dom() =~= states.dom());
}

/// An app that is listed is offered for publishing exactly when it has no
/// tracked record.
pub proof fn law_publish_offers_untracked(states: Map<Seq<char>, AppState>, apps: Seq<App>, i: int)
    requires
        0 <= i < apps.len(),
    ensures
        unpublished(states, apps).contains(apps[i]) <==> !states.contains_key(apps[i].name@),
{
    let pred = |a: App| !states.contains_key(a.name@);
    if pred(apps[i]) {
        apps.lemma_filter_contains(pred, i);
    }
    if unpublished(states, apps).contains(apps[i]) {
        let j = choose|j: int|
            0 <= j < unpublished(states, apps).len() && unpublished(states, apps)[j] == apps[i];
        apps.lemma_filter_pred(pred, j);
    }
}

/// Removing an app that was just inserted, and was not tracked before,
/// leaves the tracked states as they were.
pub proof fn law_remove_undoes_insert(states: Map<Seq<char>, AppState>, name: Seq<char>)
    requires
        !states.contains_key(name),
    ensures
        states.insert(name, AppState::Published).remove(name) == states,
{
    assert(states.insert(name, AppState::Published).remove(name) =~= states);
}

proof fn lemma_after_prefix(v: TrackerView, calls: Seq<TrackerCall>, m: int)
    requires
        0 < m <= calls.len(),
    ensures
        after_calls(v, calls.take(m)) == after_call(after_calls(v, calls.take(m - 1)), calls[m - 1]),
{
    assert(calls.take(m).drop_last() =~= calls.take(m - 1));
}

/// No run of calls changes the grace period, the address or the hostname
/// of a tracker.
pub proof fn law_calls_keep_settings(v: TrackerView, calls: Seq<TrackerCall>)
    ensures
        after_calls(v, calls).grace == v.grace,
        after_calls(v, calls).address == v.address,
        after_calls(v, calls).hostname == v.hostname,
    decreases calls.len(),
{
    if calls.len() > 0 {
        law_calls_keep_settings(v, calls.drop_last());
    }
}

/// After a run of calls an app is tracked exactly when the last call that
/// touched it was an insert; polls never change that, and an app no call
/// touched is tracked as it was before the run.
pub proof fn law_tracked_by_last_touch(v: TrackerView, calls: Seq<TrackerCall>, name: Seq<char>)
    ensures
        after_calls(v, calls).states.contains_key(name) == match last_touch(calls, name) {
            Some(TrackerCall::Insert(_)) => true,
            Some(_) => false,
            None => v.states.contains_key(name),
        },
    decreases calls.len(),
{
    if calls.len() > 0 {
        law_tracked_by_last_touch(v, calls.drop_last(), name);
    }
}

/// After a run of calls, a listed app is offered for publishing exactly
/// when the last call that touched it was a remove, or, if none did, when
/// it was not tracked before the run.
pub proof fn law_offered_by_last_touch(v: TrackerView, calls: Seq<TrackerCall>, apps: Seq<App>, i: int)
    requires
        0 <= i < apps.len(),
    ensures
        unpublished(after_calls(v, calls).states, apps).contains(apps[i]) == match last_touch(
            calls,
            apps[i].name@,
        ) {
            Some(TrackerCall::Insert(_)) => false,
            Some(_) => true,
            None => !v.states.contains_key(apps[i].name@),
        },
{
    law_tracked_by_last_touch(v, calls, apps[i].name@);
    law_publish_offers_untracked(after_calls(v, calls).states, apps, i);
}

/// Where a tracked app is pending withdrawal, there is an earlier poll that
/// first found it absent while it was published, at the reading the
/// pending state carries, and no call since touched it or found it.
proof fn lemma_pending_started(v: TrackerView, calls: Seq<TrackerCall>, m: int, name: Seq<char>, since: u128) -> (j: int)
    requires
        0 <= m <= calls.len(),
        !v.states.contains_key(name) || v.states[name] == AppState::Published,
        after_calls(v, calls.take(m)).states.contains_key(name),
        after_calls(v, calls.take(m)).states[name] == AppState::PendingWithdrawal(since),
    ensures
        0 <= j < m,
        calls[j] is Poll,
        poll_time(calls[j]) == since,
        after_calls(v, calls.take(j)).states.contains_key(name),
        after_calls(v, calls.take(j)).states[name] == AppState::Published,
        forall|i: int| j <= i < m ==> !touches(#[trigger] calls[i], name) && misses(calls[i], name),
    decreases m,
{
    if m == 0 {
        assert(calls.take(0) =~= Seq::<TrackerCall>::empty());
        assert(false);
        0
    } else {
        lemma_after_prefix(v, calls, m);
        let prev = after_calls(v, calls.take(m - 1));
        match calls[m - 1] {
            TrackerCall::Insert(n) => {
                assert(n != name);
                let j = lemma_pending_started(v, calls, m - 1, name, since);
                j
            },
            TrackerCall::Remove(n) => {
                assert(n != name);
                let j = lemma_pending_started(v, calls, m - 1, name, since);
                j
            },
            TrackerCall::Poll(apps, now) => {
                assert(prev.states.contains_key(name));
                assert(!lists_app(apps, name));
                if prev.states[name] == AppState::Published {
                    m - 1
                } else {
                    let j = lemma_pending_started(v, calls, m - 1, name, since);
                    j
                }
            },
        }
    }
}

/// From the first poll that finds a published app absent, while no call
/// touches or finds it, it stays tracked and pending since that poll.
proof fn lemma_pending_kept(v: TrackerView, calls: Seq<TrackerCall>, j: int, m: int, name: Seq<char>)
    requires
        0 <= j < m <= calls.len(),
        calls[j] is Poll,
        after_calls(v, calls.take(j)).states.contains_key(name),
        after_calls(v, calls.take(j)).states[name] == AppState::Published,
        forall|i: int| j <= i < m ==> !touches(#[trigger] calls[i], name) && misses(calls[i], name),
    ensures
        after_calls(v, calls.take(m)).states.contains_key(name),
        after_calls(v, calls.take(m)).states[name] == AppState::PendingWithdrawal(poll_time(calls[j])),
    decreases m - j,
{
    lemma_after_prefix(v, calls, m);
    assert(!touches(calls[m - 1], name) && misses(calls[m - 1], name));
    if m - 1 > j {
        lemma_pending_kept(v, calls, j, m - 1, name);
    }
}

/// A record is withdrawn only after its app has been absent for the whole
/// grace period. In a run of calls on a tracker where the app was published
/// or not tracked at the start, a poll that withdraws it has an earlier
/// poll (the one returned) that found it absent while published, at least
/// the grace period before; no call in between, nor the withdrawing poll,
/// touched or found the app. So the first poll that finds an app absent
/// never withdraws it, even with no grace period.
pub proof fn law_withdrawal_follows_grace_period(
    v: TrackerView,
    calls: Seq<TrackerCall>,
    k: int,
    name: Seq<char>,
) -> (first_absent: int)
    requires
        0 <= k < calls.len(),
        !v.states.contains_key(name) || v.states[name] == AppState::Published,
        withdraws_at(v, calls, k, name),
    ensures
        0 <= first_absent < k,
        calls[first_absent] is Poll,
        after_calls(v, calls.take(first_absent)).states[name] == AppState::Published,
        !withdraws_at(v, calls, first_absent, name),
        forall|i: int|
            first_absent <= i <= k ==> !touches(#[trigger] calls[i], name) && misses(calls[i], name),
        elapsed(poll_time(calls[first_absent]), poll_time(calls[k])) >= v.grace,
{
    let before = after_calls(v, calls.take(k));
    let since = match before.states[name] {
        AppState::PendingWithdrawal(s) => s,
        AppState::Published => 0,
    };
    let j = lemma_pending_started(v, calls, k, name, since);
    law_calls_keep_settings(v, calls.take(k));
    j
}

/// A record is withdrawn once its app has been absent for the grace period:
/// in a run of calls, if a poll finds a published app absent, no later call
/// up to poll `k` touches or finds it, and poll `k` comes at least the
/// grace period later, then poll `k` withdraws its record (and so does
/// every later poll while it stays untouched and absent).
pub proof fn law_absence_for_grace_period_withdraws(
    v: TrackerView,
    calls: Seq<TrackerCall>,
    first_absent: int,
    k: int,
    name: Seq<char>,
)
    requires
        0 <= first_absent < k < calls.len(),
        calls[first_absent] is Poll,
        calls[k] is Poll,
        after_calls(v, calls.take(first_absent)).states.contains_key(name),
        after_calls(v, calls.take(first_absent)).states[name] == AppState::Published,
        forall|i: int|
            first_absent <= i <= k ==> !touches(#[trigger] calls[i], name) && misses(calls[i], name),
        poll_time(calls[first_absent]) <= poll_time(calls[k]),
        poll_time(calls[k]) - poll_time(calls[first_absent]) >= v.grace,
    ensures
        withdraws_at(v, calls, k, name),
{
    lemma_pending_kept(v, calls, first_absent, k, name);
    assert(misses(calls[k], name));
    law_calls_keep_settings(v, calls.take(k));
}

/// Every tracker keeps a record for exactly the apps it tracks.
pub proof fn law_every_tracked_app_holds_a_record<R>(tracker: &PublishedApps<R>)
    ensures
        tracker.records().dom() == tracker.states().dom(),
{
    assert(tracker.records().dom() =~= tracker.states().dom());
}

/// Running two runs one after the other is running their concatenation.
pub proof fn law_calls_compose(v: TrackerView, first: Seq<TrackerCall>, then: Seq<TrackerCall>)
    ensures
        after_calls(v, first + then) == after_calls(after_calls(v, first), then),
    decreases then.len(),
{
    if then.len() == 0 {
        assert(first + then =~= first);
    } else {
        assert((first + then).drop_last() =~= first + then.drop_last());
        assert((first + then).last() == then.last());
        law_calls_compose(v, first, then.drop_last());
    }
}

/// Removing a list of apps one by one stops tracking exactly those apps.
pub proof fn law_removals_untrack(v: TrackerView, names: Seq<Seq<char>>)
    ensures
        after_calls(v, removals(names)) == (TrackerView {
            states: v.states.remove_keys(names.to_set()),
            grace: v.grace,
            address: v.address,
            hostname: v.hostname,
        }),
    decreases names.len(),
{
    if names.len() == 0 {
        assert(v.states.remove_keys(names.to_set()) =~= v.states);
    } else {
        let rest = names.drop_last();
        assert(removals(names).drop_last() =~= removals(rest));
        law_removals_untrack(v, rest);
        assert(names =~= rest + seq![names.last()]);
        Seq::lemma_to_set_insert_commutes(rest, names.last());
        assert(v.states.remove_keys(rest.to_set()).remove(names.last()) =~= v.states.remove_keys(
            names.to_set(),
        ));
    }
}

/// Inserting a list of apps one by one tracks those apps besides the ones
/// already tracked.
pub proof fn law_insertions_track(v: TrackerView, names: Seq<Seq<char>>)
    ensures
        after_calls(v, insertions(names)).states.dom() == v.states.dom() + names.to_set(),
    decreases names.len(),
{
    if names.len() == 0 {
        assert(v.states.dom() + names.to_set() =~= v.states.dom());
    } else {
        let rest = names.drop_last();
        assert(insertions(names).drop_last() =~= insertions(rest));
        law_insertions_track(v, rest);
        assert(names =~= rest + seq![names.last()]);
        Seq::lemma_to_set_insert_commutes(rest, names.last());
        assert(after_calls(v, insertions(names)).states.dom() =~= v.states.dom() + names.to_set());
    }
}

/// After a tick of the publish loop the tracked apps are exactly those
/// tracked before, less the withdrawn ones, plus the ones whose records
/// were published on that tick.
pub proof fn law_tick_tracks(
    v: TrackerView,
    apps: Seq<App>,
    now: u128,
    withdrawn: Seq<Seq<char>>,
    published: Seq<Seq<char>>,
)
    ensures
        after_calls(v, tick_calls(apps, now, withdrawn, published)).states.dom() == v.states.dom().difference(
            withdrawn.to_set(),
        ) + published.to_set(),
{
    let polled = seq![TrackerCall::Poll(apps, now)];
    law_calls_compose(v, polled + removals(withdrawn), insertions(published));
    law_calls_compose(v, polled, removals(withdrawn));
    assert(polled.drop_last() =~= Seq::<TrackerCall>::empty());
    let after_poll = after_calls(v, polled);
    assert(after_calls(v, polled.drop_last()) == v);
    assert(after_poll == after_call(v, TrackerCall::Poll(apps, now)));
    law_poll_keeps_tracked_apps(v.states, apps, now);
    assert(after_poll.states.dom() == v.states.dom());
    law_removals_untrack(after_poll, withdrawn);
    let after_removals = after_calls(after_poll, removals(withdrawn));
    law_insertions_track(after_removals, published);
    assert(after_removals.states.dom() =~= v.states.dom().difference(withdrawn.to_set()));
}

/// A failed publish is tried again: an app offered for publishing on one
/// tick whose record could not be published stays untracked, so a later
/// tick that finds it again offers it again.
pub proof fn law_failed_publish_is_retried(
    v: TrackerView,
    apps1: Seq<App>,
    t1: u128,
    withdrawn1: Seq<Seq<char>>,
    published1: Seq<Seq<char>>,
    apps2: Seq<App>,
    t2: u128,
    withdrawn2: Seq<Seq<char>>,
    i: int,
)
    requires
        0 <= i < apps2.len(),
        !after_calls(v, seq![TrackerCall::Poll(apps1, t1)] + removals(withdrawn1)).states.contains_key(
            apps2[i].name@,
        ),
        !published1.contains(apps2[i].name@),
    ensures
        unpublished(
            after_calls(
                v,
                tick_calls(apps1, t1, withdrawn1, published1) + (seq![TrackerCall::Poll(apps2, t2)]
                    + removals(withdrawn2)),
            ).states,
            apps2,
        ).contains(apps2[i]),
{
    let name = apps2[i].name@;
    let polled = seq![TrackerCall::Poll(apps1, t1)];
    let tick1 = tick_calls(apps1, t1, withdrawn1, published1);
    law_calls_compose(v, polled + removals(withdrawn1), insertions(published1));
    law_insertions_track(after_calls(v, polled + removals(withdrawn1)), published1);
    let after1 = after_calls(v, tick1);
    assert(!after1.states.dom().contains(name));
    let polled2 = seq![TrackerCall::Poll(apps2, t2)];
    law_calls_compose(v, tick1, polled2 + removals(withdrawn2));
    law_calls_compose(after1, polled2, removals(withdrawn2));
    assert(polled2.drop_last() =~= Seq::<TrackerCall>::empty());
    let after_poll2 = after_calls(after1, polled2);
    assert(after_calls(after1, polled2.drop_last()) == after1);
    assert(after_poll2 == after_call(after1, TrackerCall::Poll(apps2, t2)));
    law_poll_keeps_tracked_apps(after1.states, apps2, t2);
    assert(after_poll2.states.dom() == after1.states.dom());
    law_removals_untrack(after_poll2, withdrawn2);
    assert(!after_poll2.states.dom().contains(name));
    law_publish_offers_untracked(after_calls(after1, polled2 + removals(withdrawn2)).states, apps2, i);
}

/// Polls measure absence in real elapsed time, in the unit of the grace
/// period: for two polls of a tracker made with grace period
/// `grace_period`, taken when `first` and then `second` had elapsed since
/// the tracker was created (the readings `to_withdraw` and `poll` take), a
/// published app found absent at both is withdrawn at the second exactly
/// when `second - first` has reached `grace_period`.
pub proof fn law_absence_measured_in_elapsed_time(
    states: Map<Seq<char>, AppState>,
    apps1: Seq<App>,
    apps2: Seq<App>,
    first: Duration,
    second: Duration,
    grace_period: Duration,
    withdrawn: Seq<Seq<char>>,
    name: Seq<char>,
)
    requires
        states.contains_key(name),
        states[name] == AppState::Published,
        !lists_app(apps1, name),
        !lists_app(apps2, name),
        duration_nanos(first) <= duration_nanos(second),
        poll_withdraws(
            poll_states(states, apps1, duration_nanos(first)),
            apps2,
            duration_nanos(second),
            duration_nanos(grace_period),
            withdrawn,
        ),
    ensures
        withdrawn.contains(name) <==> duration_nanos(second) - duration_nanos(first) >= duration_nanos(
            grace_period,
        ),
{
    law_withdrawal_waits_for_grace(
        states,
        apps1,
        apps2,
        duration_nanos(first),
        duration_nanos(second),
        duration_nanos(grace_period),
        withdrawn,
        name,
    );
}

} // verus!
