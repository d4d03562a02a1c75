use tale::domain::LocalFailureKind;
use tale::local::daemon::{LocalDaemonError, WatchInvalidation};
use tale::local::ipn::{
    next_generation, PendingInvalidations, ReadOutcome, ReconnectPolicy, ResourceKind,
    SessionResult, SessionState,
};

#[test]
fn a_session_starts_both_reads() {
    let (state, started) = SessionState::start(1_000, 60_000);
    assert_eq!(started, vec![ResourceKind::Status, ResourceKind::Preferences]);
    assert!(state.status_active && state.preferences_active);
    assert_eq!(state.reconcile_due, Some(61_000));
}

#[test]
fn invalidations_during_a_read_mark_it_dirty_and_restart_it() {
    let (mut state, _) = SessionState::start(0, 60_000);
    assert_eq!(state.on_notification(WatchInvalidation::Status, 10), None);
    assert_eq!(state.pending_due(), Some(85));
    let mut started = Vec::new();
    state.on_pending_due(&mut started);
    assert!(started.is_empty());
    assert!(state.status_dirty);
    let outcome = state.on_read_finished(ResourceKind::Status, ReadOutcome::Succeeded, &mut started);
    assert_eq!(outcome, None);
    assert_eq!(started, vec![ResourceKind::Status]);
    assert!(state.status_active && !state.status_dirty && state.status_succeeded);
    let mut more = Vec::new();
    let done = state.on_read_finished(ResourceKind::Preferences, ReadOutcome::Failed, &mut more);
    assert_eq!(done, None);
    assert!(more.is_empty());
    assert!(!state.preferences_active && !state.preferences_succeeded);
    assert_eq!(
        state.on_read_finished(ResourceKind::Status, ReadOutcome::Cancelled, &mut more),
        Some(SessionResult::Cancelled)
    );
}

#[test]
fn full_resync_schedules_reconciliation() {
    let (mut state, _) = SessionState::start(0, 1_000);
    let mut started = Vec::new();
    state.on_read_finished(ResourceKind::Status, ReadOutcome::Succeeded, &mut started);
    state.on_read_finished(ResourceKind::Preferences, ReadOutcome::Succeeded, &mut started);
    state.settle(500);
    assert!(state.full_resync);
    assert_eq!(state.reconcile_due, Some(1_500));
    state.on_reconcile_due(1_500, &mut started);
    assert_eq!(started, vec![ResourceKind::Status, ResourceKind::Preferences]);
    assert_eq!(state.reconcile_due, Some(2_500));
}

#[test]
fn daemon_errors_end_the_session() {
    let (mut state, _) = SessionState::start(0, 1_000);
    let end = state.on_notification(WatchInvalidation::DaemonError { detail: "boom".to_owned() }, 40_000);
    match end {
        Some(SessionResult::Finished { reset_backoff, failure: Some(failure) }) => {
            assert!(reset_backoff);
            assert_eq!(failure.kind, LocalFailureKind::DaemonUnavailable);
            assert_eq!(failure.summary, "local daemon reported a watcher error");
            assert_eq!(failure.detail, "boom");
        }
        other => panic!("unexpected {other:?}"),
    }
    assert_eq!(state.on_stream_end(Some(LocalDaemonError::Cancelled), 5), SessionResult::Cancelled);
    assert_eq!(
        state.on_stream_end(None, 5),
        SessionResult::Finished { reset_backoff: false, failure: None }
    );
}

#[test]
fn reconnect_policy_backs_off_and_resets() {
    let mut policy = ReconnectPolicy::new();
    let (failure, delay) = policy.after_session(false, None);
    assert_eq!(delay, 250);
    assert_eq!(failure.summary, "local daemon watcher disconnected");
    assert_eq!(policy.after_session(false, None).1, 500);
    assert_eq!(policy.after_session(false, None).1, 1000);
    assert_eq!(policy.after_session(true, None).1, 250);
    assert_eq!(policy.attempt, 1);
}

#[test]
fn pending_sets_ignore_non_invalidations() {
    assert_eq!(PendingInvalidations::new(WatchInvalidation::Nothing, 5), None);
    let both = PendingInvalidations::new(WatchInvalidation::Both, 5);
    assert_eq!(both, Some(PendingInvalidations { status: true, preferences: true, first_at: 5 }));
    let near_end = PendingInvalidations { status: true, preferences: false, first_at: u64::MAX - 100 };
    assert_eq!(near_end.due_at(), u64::MAX - 100);
    assert_eq!(next_generation(7, 3), 8);
    assert_eq!(next_generation(u64::MAX, 3), u64::MAX);
}
