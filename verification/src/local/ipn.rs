//! The observer of the daemon's notification bus: reconnect pacing, the
//! coalescing of invalidations, read generations, and the decisions of one
//! watch session (which reads to start, when a session ends).
use vstd::prelude::*;

use std::sync::Arc;
use std::sync::atomic::AtomicU64;
use std::sync::atomic::Ordering;

use crate::domain::{LocalFailure, LocalFailureKind, LocalFailureView};
use crate::local::daemon::{LocalDaemonError, WatchInvalidation};

verus! {

/// How long the first invalidation waits for company, in milliseconds.
pub const DEBOUNCE_WINDOW: u64 = 75;
/// The longest an invalidation may wait, in milliseconds.
pub const MAX_DEBOUNCE_WINDOW: u64 = 250;
/// A session that lasted this long (milliseconds) resets the reconnect pacing.
pub const WATCHER_RESET_AFTER: u64 = 30000;

/// The pause before reconnect attempt `attempt`, in milliseconds.
pub open spec fn reconnect_delay_spec(attempt: nat) -> u64 {
    if attempt == 0 {
        250
    } else if attempt == 1 {
        500
    } else if attempt == 2 {
        1000
    } else if attempt == 3 {
        2000
    } else {
        5000
    }
}

pub fn reconnect_delay(attempt: usize) -> (r: u64)
    ensures
        r == reconnect_delay_spec(attempt as nat),
{
    let delays: [u64; 5] = [250, 500, 1000, 2000, 5000];
    let index = if attempt < 4 { attempt } else { 4 };
    delays[index]
}

/// Invalidations that arrived since `first_at` (milliseconds) and wait for
/// their debounce window.
#[derive(Debug, Clone, Copy, PartialEq, Eq, Structural)]
pub struct PendingInvalidations {
    pub status: bool,
    pub preferences: bool,
    pub first_at: u64,
}

/// Which resources an invalidation names.
pub open spec fn names_status(invalidation: WatchInvalidation) -> bool {
    invalidation matches WatchInvalidation::Status || invalidation matches WatchInvalidation::Both
}

pub open spec fn names_preferences(invalidation: WatchInvalidation) -> bool {
    invalidation matches WatchInvalidation::Preferences || invalidation matches WatchInvalidation::Both
}

/// `at + delta`, or `at` itself where the sum overflows.
pub open spec fn later_or_same(at: u64, delta: u64) -> u64 {
    if at + delta <= u64::MAX {
        (at + delta) as u64
    } else {
        at
    }
}

impl PendingInvalidations {
    /// The pending set that one invalidation opens; none for one that names
    /// no resource.
    pub fn new(invalidation: WatchInvalidation, now: u64) -> (r: Option<Self>)
        ensures
            (names_status(invalidation) || names_preferences(invalidation)) ==> r == Some(
                PendingInvalidations {
                    status: names_status(invalidation),
                    preferences: names_preferences(invalidation),
                    first_at: now,
                },
            ),
            !(names_status(invalidation) || names_preferences(invalidation)) ==> r.is_none(),
    {
        match invalidation {
            WatchInvalidation::Status => Some(PendingInvalidations { status: true, preferences: false, first_at: now }),
            WatchInvalidation::Preferences => Some(PendingInvalidations { status: false, preferences: true, first_at: now }),
            WatchInvalidation::Both => Some(PendingInvalidations { status: true, preferences: true, first_at: now }),
            _ => None,
        }
    }

    /// Adds an invalidation to the set; the window keeps its start.
    pub fn add(&mut self, invalidation: WatchInvalidation)
        ensures
            final(self).status == (old(self).status || names_status(invalidation)),
            final(self).preferences == (old(self).preferences || names_preferences(invalidation)),
            final(self).first_at == old(self).first_at,
    {
        match invalidation {
            WatchInvalidation::Status => self.status = true,
            WatchInvalidation::Preferences => self.preferences = true,
            WatchInvalidation::Both => {
                self.status = true;
                self.preferences = true;
            },
            _ => {},
        }
    }

    pub open spec fn due_at_spec(self) -> u64 {
        let debounce = later_or_same(self.first_at, DEBOUNCE_WINDOW);
        let maximum = later_or_same(self.first_at, MAX_DEBOUNCE_WINDOW);
        if debounce <= maximum {
            debounce
        } else {
            maximum
        }
    }

    /// When the set is to be acted on.
    pub fn due_at(self) -> (r: u64)
        ensures
            r == self.due_at_spec(),
    {
        let debounce = match self.first_at.checked_add(DEBOUNCE_WINDOW) {
            Some(v) => v,
            None => self.first_at,
        };
        let maximum = match self.first_at.checked_add(MAX_DEBOUNCE_WINDOW) {
            Some(v) => v,
            None => self.first_at,
        };
        if debounce <= maximum {
            debounce
        } else {
            maximum
        }
    }
}

/// The next generation after `current`, and at least `minimum`.
pub open spec fn next_generation_spec(current: u64, minimum: u64) -> u64 {
    let bumped = if current < u64::MAX { (current + 1) as u64 } else { current };
    if bumped >= minimum {
        bumped
    } else {
        minimum
    }
}

pub fn next_generation(current: u64, minimum: u64) -> (r: u64)
    ensures
        r == next_generation_spec(current, minimum),
{
    let bumped = current.saturating_add(1);
    if bumped >= minimum {
        bumped
    } else {
        minimum
    }
}

/// Replaces the counter's value `v` with `next_generation(v, minimum)` in one
/// atomic step (`AtomicU64::fetch_update`, which retries its compare-exchange
/// until it succeeds) and returns `v`. Other clones of the counter may move
/// it at any time, so nothing is said of `v`.
#[verifier::external_body]
fn advance_counter(counter: &AtomicU64, minimum: u64) -> (previous: u64) {
    match counter.fetch_update(Ordering::AcqRel, Ordering::Acquire, |current| Some(next_generation(current, minimum))) {
        Ok(previous) => previous,
        Err(previous) => previous,
    }
}

/// The generation counters of status and preference reads, shared by every
/// clone so that all callers draw from one increasing sequence.
#[derive(Debug, Clone, Default)]
pub struct ReadSerializers {
    status_generation: Arc<AtomicU64>,
    preferences_generation: Arc<AtomicU64>,
}

impl ReadSerializers {
    /// Both counters at zero. They are atomics shared by every clone, whose
    /// values the verifier does not see, so no clause states them.
    pub fn new() -> Self {
        ReadSerializers {
            status_generation: Arc::new(AtomicU64::new(0)),
            preferences_generation: Arc::new(AtomicU64::new(0)),
        }
    }

    /// Raises both counters to at least the given generations.
    pub fn ensure_generations(&self, status: u64, preferences: u64) {
        self.status_generation.fetch_max(status, Ordering::AcqRel);
        self.preferences_generation.fetch_max(preferences, Ordering::AcqRel);
    }

    /// The next status generation, at least `minimum`.
    pub fn reserve_status_generation(&self, minimum: u64) -> (r: u64)
        ensures
            exists|previous: u64| r == next_generation_spec(previous, minimum),
    {
        reserve_generation(&self.status_generation, minimum)
    }

    /// The next preferences generation, at least `minimum`.
    pub fn reserve_preferences_generation(&self, minimum: u64) -> (r: u64)
        ensures
            exists|previous: u64| r == next_generation_spec(previous, minimum),
    {
        reserve_generation(&self.preferences_generation, minimum)
    }
}

fn reserve_generation(counter: &AtomicU64, minimum: u64) -> (r: u64)
    ensures
        exists|previous: u64| r == next_generation_spec(previous, minimum),
{
    let previous = advance_counter(counter, minimum);
    next_generation(previous, minimum)
}

/// Settings of one observer.
#[derive(Debug, Clone, PartialEq, Eq)]
pub struct ObserverConfig {
    pub reconcile_interval: u64,
    pub generation: u64,
    pub initial_status_generation: u64,
    pub initial_preferences_generation: u64,
}


/// The two resources that the observer reads.
#[derive(Debug, Clone, Copy, PartialEq, Eq, Structural)]
pub enum ResourceKind {
    Status,
    Preferences,
}

/// How a watch session ended.
#[derive(Debug, Clone, PartialEq, Eq)]
pub enum SessionResult {
    Cancelled,
    Finished { reset_backoff: bool, failure: Option<LocalFailure> },
}

/// How a finished read came back.
#[derive(Debug, Clone, Copy, PartialEq, Eq, Structural)]
pub enum ReadOutcome {
    Succeeded,
    Failed,
    Cancelled,
}

/// The bookkeeping of one watch session; times are milliseconds of a
/// monotonic clock. At most one read per resource is in flight, and a
/// resource is marked dirty only while its read is in flight.
#[derive(Debug, Clone, PartialEq, Eq)]
pub struct SessionState {
    pub connected_at: u64,
    pub reconcile_interval: u64,
    pub status_active: bool,
    pub preferences_active: bool,
    pub status_dirty: bool,
    pub preferences_dirty: bool,
    pub status_succeeded: bool,
    pub preferences_succeeded: bool,
    pub full_resync: bool,
    pub pending: Option<PendingInvalidations>,
    pub reconcile_due: Option<u64>,
}

/// `now + interval` where it fits.
pub open spec fn deadline_after(now: u64, interval: u64) -> Option<u64> {
    if now + interval <= u64::MAX {
        Some((now + interval) as u64)
    } else {
        None
    }
}

fn checked_deadline(now: u64, interval: u64) -> (r: Option<u64>)
    ensures
        r == deadline_after(now, interval),
{
    now.checked_add(interval)
}

impl SessionState {
    /// A dirty resource always has its read in flight.
    pub open spec fn wf(&self) -> bool {
        (self.status_dirty ==> self.status_active) && (self.preferences_dirty ==> self.preferences_active)
    }

    pub open spec fn active(&self, resource: ResourceKind) -> bool {
        match resource {
            ResourceKind::Status => self.status_active,
            ResourceKind::Preferences => self.preferences_active,
        }
    }

    pub open spec fn dirty(&self, resource: ResourceKind) -> bool {
        match resource {
            ResourceKind::Status => self.status_dirty,
            ResourceKind::Preferences => self.preferences_dirty,
        }
    }

    /// The state of a session that just connected at `now`; both reads start.
    pub fn start(now: u64, reconcile_interval: u64) -> (r: (Self, Vec<ResourceKind>))
        ensures
            r.0.wf(),
            r.0.connected_at == now,
            r.0.reconcile_interval == reconcile_interval,
            r.0.status_active && r.0.preferences_active,
            !r.0.status_dirty && !r.0.preferences_dirty,
            !r.0.status_succeeded && !r.0.preferences_succeeded && !r.0.full_resync,
            r.0.pending.is_none(),
            r.0.reconcile_due == deadline_after(now, reconcile_interval),
            r.1@ == seq![ResourceKind::Status, ResourceKind::Preferences],
    {
        let mut state = SessionState {
            connected_at: now,
            reconcile_interval,
            status_active: false,
            preferences_active: false,
            status_dirty: false,
            preferences_dirty: false,
            status_succeeded: false,
            preferences_succeeded: false,
            full_resync: false,
            pending: None,
            reconcile_due: checked_deadline(now, reconcile_interval),
        };
        let mut started: Vec<ResourceKind> = Vec::new();
        state.request_read(ResourceKind::Status, &mut started);
        state.request_read(ResourceKind::Preferences, &mut started);
        (state, started)
    }

    /// Asks for a read of `resource`: it starts (and is listed in `started`)
    /// unless one is in flight, which is then marked to run again.
    pub fn request_read(&mut self, resource: ResourceKind, started: &mut Vec<ResourceKind>)
        ensures
            final(self).active(resource),
            old(self).active(resource) ==> final(self).dirty(resource) && final(started)@ == old(started)@,
            !old(self).active(resource) ==> final(self).dirty(resource) == old(self).dirty(resource)
                && final(started)@ == old(started)@.push(resource),
            *final(self) == (SessionState {
                status_active: final(self).status_active,
                preferences_active: final(self).preferences_active,
                status_dirty: final(self).status_dirty,
                preferences_dirty: final(self).preferences_dirty,
                ..*old(self)
            }),
            resource == ResourceKind::Status ==> final(self).preferences_active == old(self).preferences_active
                && final(self).preferences_dirty == old(self).preferences_dirty,
            resource == ResourceKind::Preferences ==> final(self).status_active == old(self).status_active
                && final(self).status_dirty == old(self).status_dirty,
            old(self).wf() ==> final(self).wf(),
    {
        match resource {
            ResourceKind::Status => {
                if self.status_active {
                    self.status_dirty = true;
                } else {
                    self.status_active = true;
                    started.push(resource);
                }
            },
            ResourceKind::Preferences => {
                if self.preferences_active {
                    self.preferences_dirty = true;
                } else {
                    self.preferences_active = true;
                    started.push(resource);
                }
            },
        }
    }

    /// Whether the session has lasted long enough, or resynchronised fully,
    /// to reset the reconnect pacing.
    pub open spec fn reset_backoff_spec(&self, now: u64) -> bool {
        self.full_resync || (now >= self.connected_at && now - self.connected_at >= WATCHER_RESET_AFTER)
    }

    pub fn reset_backoff(&self, now: u64) -> (r: bool)
        ensures
            r == self.reset_backoff_spec(now),
    {
        self.full_resync || (now >= self.connected_at && now - self.connected_at >= WATCHER_RESET_AFTER)
    }

    /// A notification from the bus: a daemon error ends the session, an
    /// invalidation joins the pending set (opening it at `now`).
    pub fn on_notification(&mut self, invalidation: WatchInvalidation, now: u64) -> (r: Option<SessionResult>)
        ensures
            invalidation matches WatchInvalidation::DaemonError { detail } ==> (r matches Some(SessionResult::Finished { reset_backoff, failure: Some(f) })
                && reset_backoff == old(self).reset_backoff_spec(now)
                && f@ == (LocalFailureView {
                    kind: LocalFailureKind::DaemonUnavailable,
                    operation: "watch-ipn-bus"@,
                    summary: "local daemon reported a watcher error"@,
                    detail: detail@,
                    retryable: true,
                }) && *final(self) == *old(self)),
            !(invalidation matches WatchInvalidation::DaemonError { .. }) ==> r.is_none()
                && *final(self) == (SessionState { pending: final(self).pending, ..*old(self) }),
            (names_status(invalidation) || names_preferences(invalidation)) ==> match old(self).pending {
                Some(p) => final(self).pending == Some(PendingInvalidations {
                    status: p.status || names_status(invalidation),
                    preferences: p.preferences || names_preferences(invalidation),
                    first_at: p.first_at,
                }),
                None => final(self).pending == Some(PendingInvalidations {
                    status: names_status(invalidation),
                    preferences: names_preferences(invalidation),
                    first_at: now,
                }),
            },
            invalidation matches WatchInvalidation::Nothing ==> final(self).pending == old(self).pending,
    {
        match invalidation {
            WatchInvalidation::DaemonError { detail } => {
                let failure = LocalFailure::new(
                    LocalFailureKind::DaemonUnavailable,
                    "watch-ipn-bus".to_owned(),
                    "local daemon reported a watcher error".to_owned(),
                    detail,
                    true,
                );
                Some(SessionResult::Finished { reset_backoff: self.reset_backoff(now), failure: Some(failure) })
            },
            WatchInvalidation::Nothing => None,
            other => {
                match self.pending {
                    Some(p) => {
                        let mut q = p;
                        q.add(other);
                        self.pending = Some(q);
                    },
                    None => {
                        self.pending = PendingInvalidations::new(other, now);
                    },
                }
                None
            },
        }
    }

    /// The bus ended or failed: a cancellation cancels the session, anything
    /// else finishes it (a failure carried where there is one).
    pub fn on_stream_end(&self, error: Option<LocalDaemonError>, now: u64) -> (r: SessionResult)
        ensures
            error matches Some(LocalDaemonError::Cancelled) ==> r == SessionResult::Cancelled,
            error.is_none() ==> r == (SessionResult::Finished { reset_backoff: self.reset_backoff_spec(now), failure: None }),
            error matches Some(e) ==> (e matches LocalDaemonError::Cancelled || (r matches SessionResult::Finished { reset_backoff, failure: Some(f) }
                && reset_backoff == self.reset_backoff_spec(now) && f@ == e.failure_spec())),
    {
        match error {
            Some(LocalDaemonError::Cancelled) => SessionResult::Cancelled,
            Some(e) => SessionResult::Finished { reset_backoff: self.reset_backoff(now), failure: Some(e.failure()) },
            None => SessionResult::Finished { reset_backoff: self.reset_backoff(now), failure: None },
        }
    }

    /// A read task failed to join; the session finishes with that failure.
    pub fn on_read_task_failed(&self, detail: String, now: u64) -> (r: SessionResult)
        ensures
            r matches SessionResult::Finished { reset_backoff, failure: Some(f) } && reset_backoff == self.reset_backoff_spec(now)
                && f@ == (LocalFailureView {
                    kind: LocalFailureKind::DaemonUnavailable,
                    operation: "watch-ipn-bus"@,
                    summary: "local observer task failed"@,
                    detail: detail@,
                    retryable: true,
                }),
    {
        let failure = LocalFailure::new(
            LocalFailureKind::DaemonUnavailable,
            "watch-ipn-bus".to_owned(),
            "local observer task failed".to_owned(),
            detail,
            true,
        );
        SessionResult::Finished { reset_backoff: self.reset_backoff(now), failure: Some(failure) }
    }

    /// A read of `resource` came back. A cancelled read cancels the session;
    /// otherwise the read is over, a success is noted, and a dirty resource
    /// is read again.
    pub fn on_read_finished(&mut self, resource: ResourceKind, outcome: ReadOutcome, started: &mut Vec<ResourceKind>) -> (r: Option<SessionResult>)
        requires
            old(self).wf(),
        ensures
            outcome == ReadOutcome::Cancelled ==> r == Some(SessionResult::Cancelled),
            outcome != ReadOutcome::Cancelled ==> r.is_none(),
            outcome != ReadOutcome::Cancelled ==> final(self).wf(),
            outcome != ReadOutcome::Cancelled ==> {
                &&& final(self).dirty(resource) == false
                &&& final(self).active(resource) == old(self).dirty(resource)
                &&& (old(self).dirty(resource) ==> final(started)@ == old(started)@.push(resource))
                &&& (!old(self).dirty(resource) ==> final(started)@ == old(started)@)
                &&& (resource == ResourceKind::Status ==> final(self).status_succeeded == (old(self).status_succeeded || outcome == ReadOutcome::Succeeded)
                    && final(self).preferences_succeeded == old(self).preferences_succeeded
                    && final(self).preferences_active == old(self).preferences_active
                    && final(self).preferences_dirty == old(self).preferences_dirty)
                &&& (resource == ResourceKind::Preferences ==> final(self).preferences_succeeded == (old(self).preferences_succeeded || outcome == ReadOutcome::Succeeded)
                    && final(self).status_succeeded == old(self).status_succeeded
                    && final(self).status_active == old(self).status_active
                    && final(self).status_dirty == old(self).status_dirty)
                &&& final(self).full_resync == old(self).full_resync
                &&& final(self).pending == old(self).pending
                &&& final(self).reconcile_due == old(self).reconcile_due
            },
    {
        match resource {
            ResourceKind::Status => {
                self.status_active = false;
                if outcome == ReadOutcome::Cancelled {
                    return Some(SessionResult::Cancelled);
                }
                if outcome == ReadOutcome::Succeeded {
                    self.status_succeeded = true;
                }
                if self.status_dirty {
                    self.status_dirty = false;
                    self.request_read(ResourceKind::Status, started);
                }
            },
            ResourceKind::Preferences => {
                self.preferences_active = false;
                if outcome == ReadOutcome::Cancelled {
                    return Some(SessionResult::Cancelled);
                }
                if outcome == ReadOutcome::Succeeded {
                    self.preferences_succeeded = true;
                }
                if self.preferences_dirty {
                    self.preferences_dirty = false;
                    self.request_read(ResourceKind::Preferences, started);
                }
            },
        }
        None
    }

    /// The pending set's window closed: each resource it names is read, or
    /// marked to be read again where a read is in flight.
    pub fn on_pending_due(&mut self, started: &mut Vec<ResourceKind>)
        requires
            old(self).wf(),
        ensures
            final(self).wf(),
            final(self).pending.is_none(),
            final(self).full_resync == old(self).full_resync,
            final(self).status_succeeded == old(self).status_succeeded,
            final(self).preferences_succeeded == old(self).preferences_succeeded,
            final(self).reconcile_due == old(self).reconcile_due,
            match old(self).pending {
                None => final(self).status_active == old(self).status_active && final(self).preferences_active == old(self).preferences_active
                    && final(self).status_dirty == old(self).status_dirty && final(self).preferences_dirty == old(self).preferences_dirty
                    && final(started)@ == old(started)@,
                Some(p) => {
                    &&& final(self).status_active == (old(self).status_active || p.status)
                    &&& final(self).preferences_active == (old(self).preferences_active || p.preferences)
                    &&& final(self).status_dirty == (old(self).status_dirty || (p.status && old(self).status_active))
                    &&& final(self).preferences_dirty == (old(self).preferences_dirty || (p.preferences && old(self).preferences_active))
                    &&& final(started)@ == old(started)@
                        + (if p.status && !old(self).status_active { seq![ResourceKind::Status] } else { Seq::empty() })
                        + (if p.preferences && !old(self).preferences_active { seq![ResourceKind::Preferences] } else { Seq::empty() })
                },
            },
    {
        let taken = self.pending;
        self.pending = None;
        if let Some(p) = taken {
            let ghost mid = started@;
            if p.status {
                self.request_read(ResourceKind::Status, started);
            }
            let ghost after_status = started@;
            if p.preferences {
                self.request_read(ResourceKind::Preferences, started);
            }
            proof {
                assert(final(started)@ =~= old(started)@
                    + (if p.status && !old(self).status_active { seq![ResourceKind::Status] } else { Seq::empty() })
                    + (if p.preferences && !old(self).preferences_active { seq![ResourceKind::Preferences] } else { Seq::empty() }));
            }
        }
    }

    /// The periodic reconciliation came due at `now`: both resources are
    /// read (or marked) and the next one is scheduled.
    pub fn on_reconcile_due(&mut self, now: u64, started: &mut Vec<ResourceKind>)
        requires
            old(self).wf(),
        ensures
            final(self).wf(),
            final(self).reconcile_due == deadline_after(now, old(self).reconcile_interval),
            final(self).status_active && final(self).preferences_active,
            final(self).status_dirty == (old(self).status_dirty || old(self).status_active),
            final(self).preferences_dirty == (old(self).preferences_dirty || old(self).preferences_active),
            final(started)@ == old(started)@
                + (if !old(self).status_active { seq![ResourceKind::Status] } else { Seq::empty() })
                + (if !old(self).preferences_active { seq![ResourceKind::Preferences] } else { Seq::empty() }),
            final(self).pending == old(self).pending,
            final(self).full_resync == old(self).full_resync,
            final(self).status_succeeded == old(self).status_succeeded,
            final(self).preferences_succeeded == old(self).preferences_succeeded,
    {
        self.reconcile_due = checked_deadline(now, self.reconcile_interval);
        self.request_read(ResourceKind::Status, started);
        self.request_read(ResourceKind::Preferences, started);
        proof {
            assert(final(started)@ =~= old(started)@
                + (if !old(self).status_active { seq![ResourceKind::Status] } else { Seq::empty() })
                + (if !old(self).preferences_active { seq![ResourceKind::Preferences] } else { Seq::empty() }));
        }
    }

    /// After every event that keeps the session: once both resources have
    /// been read successfully the session is fully resynchronised, and a
    /// resynchronised session always has a reconciliation scheduled.
    pub fn settle(&mut self, now: u64)
        ensures
            final(self).full_resync == (old(self).full_resync || (old(self).status_succeeded && old(self).preferences_succeeded)),
            (old(self).status_succeeded && old(self).preferences_succeeded && (!old(self).full_resync || old(self).reconcile_due.is_none()))
                ==> final(self).reconcile_due == deadline_after(now, old(self).reconcile_interval),
            !(old(self).status_succeeded && old(self).preferences_succeeded && (!old(self).full_resync || old(self).reconcile_due.is_none()))
                ==> final(self).reconcile_due == old(self).reconcile_due,
            *final(self) == (SessionState { full_resync: final(self).full_resync, reconcile_due: final(self).reconcile_due, ..*old(self) }),
    {
        if self.status_succeeded && self.preferences_succeeded && !self.full_resync {
            self.full_resync = true;
            self.reconcile_due = checked_deadline(now, self.reconcile_interval);
        }
        if self.full_resync && self.status_succeeded && self.preferences_succeeded && self.reconcile_due.is_none() {
            self.reconcile_due = checked_deadline(now, self.reconcile_interval);
        }
    }

    /// When the pending set is due, if there is one.
    pub fn pending_due(&self) -> (r: Option<u64>)
        ensures
            match self.pending {
                Some(p) => r == Some(p.due_at_spec()),
                None => r.is_none(),
            },
    {
        match self.pending {
            Some(p) => Some(p.due_at()),
            None => None,
        }
    }
}

/// The pacing of reconnects between watch sessions.
#[derive(Debug, Clone, Copy, PartialEq, Eq, Structural)]
pub struct ReconnectPolicy {
    pub attempt: usize,
}

/// The failure reported for a session that ended without one.
pub open spec fn disconnect_failure() -> LocalFailureView {
    LocalFailureView {
        kind: LocalFailureKind::DaemonUnavailable,
        operation: "watch-ipn-bus"@,
        summary: "local daemon watcher disconnected"@,
        detail: "the LocalAPI watch stream ended; reconnecting"@,
        retryable: true,
    }
}

impl ReconnectPolicy {
    pub fn new() -> (r: Self)
        ensures
            r.attempt == 0,
    {
        ReconnectPolicy { attempt: 0 }
    }

    /// A session finished: the failure to report and the pause before the
    /// next attempt. A reset starts the pacing over.
    pub fn after_session(&mut self, reset_backoff: bool, failure: Option<LocalFailure>) -> (r: (LocalFailure, u64))
        ensures
            match failure {
                Some(f) => r.0 == f,
                None => r.0@ == disconnect_failure(),
            },
            reset_backoff ==> r.1 == 250,
            !reset_backoff ==> r.1 == reconnect_delay_spec(old(self).attempt as nat),
            reset_backoff ==> final(self).attempt == 1,
            !reset_backoff ==> final(self).attempt == (if old(self).attempt < usize::MAX { old(self).attempt + 1 } else { old(self).attempt as int }),
    {
        if reset_backoff {
            self.attempt = 0;
        }
        let failure = match failure {
            Some(f) => f,
            None => LocalFailure::new(
                LocalFailureKind::DaemonUnavailable,
                "watch-ipn-bus".to_owned(),
                "local daemon watcher disconnected".to_owned(),
                "the LocalAPI watch stream ended; reconnecting".to_owned(),
                true,
            ),
        };
        let delay = reconnect_delay(self.attempt);
        self.attempt = self.attempt.saturating_add(1);
        (failure, delay)
    }
}


/// Reconnect pauses never shrink as attempts go on, start at a quarter
/// second, and never exceed five seconds.
pub proof fn reconnect_delays_grow_to_a_cap(a: nat, b: nat)
    requires
        a <= b,
    ensures
        reconnect_delay_spec(a) <= reconnect_delay_spec(b),
        250 <= reconnect_delay_spec(a) <= 5000,
        reconnect_delay_spec(0) == 250,
{
}

/// A pending set acts no later than the longest debounce window after its
/// first invalidation, and no earlier than that invalidation; away from the
/// end of the clock it acts after the short window.
pub proof fn debounce_is_bounded(p: PendingInvalidations)
    ensures
        p.first_at <= p.due_at_spec(),
        p.due_at_spec() <= p.first_at + MAX_DEBOUNCE_WINDOW,
        p.first_at + MAX_DEBOUNCE_WINDOW <= u64::MAX ==> p.due_at_spec() == p.first_at + DEBOUNCE_WINDOW,
{
}

/// What `add` does to a pending set.
pub open spec fn add_spec(p: PendingInvalidations, invalidation: WatchInvalidation) -> PendingInvalidations {
    PendingInvalidations {
        status: p.status || names_status(invalidation),
        preferences: p.preferences || names_preferences(invalidation),
        first_at: p.first_at,
    }
}

/// Invalidations coalesce by resource: the order in which they arrive, and
/// repeats, do not matter, and the window keeps its first start.
pub proof fn invalidations_coalesce(p: PendingInvalidations, a: WatchInvalidation, b: WatchInvalidation)
    ensures
        add_spec(add_spec(p, a), b) == add_spec(add_spec(p, b), a),
        add_spec(add_spec(p, a), a) == add_spec(p, a),
        add_spec(p, a).first_at == p.first_at,
        add_spec(p, a).due_at_spec() == p.due_at_spec(),
{
}

/// Each reserved generation is above the one the counter held (unless the
/// counter is at its end) and at least the minimum asked for.
pub proof fn generations_increase(current: u64, minimum: u64)
    ensures
        next_generation_spec(current, minimum) >= minimum,
        current < u64::MAX ==> next_generation_spec(current, minimum) > current,
        next_generation_spec(current, minimum) >= 1,
{
}

/// A reset session restarts the pacing: the next pause is the shortest one.
pub proof fn reset_restarts_pacing(attempt: usize)
    ensures
        reconnect_delay_spec(0) == 250,
        reconnect_delay_spec(attempt as nat) >= reconnect_delay_spec(0),
{
}

} // verus!
