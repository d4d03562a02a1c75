use tale::json::JsonValue;
use tale::local::daemon::{
    chunk_notifications, LocalDaemonError, WatchInvalidation, MAX_BUFFERED_NOTIFICATIONS,
};

fn empty_object() -> Result<JsonValue, String> {
    Ok(JsonValue::Object { entries: Vec::new(), rendered: "{}".to_owned() })
}

fn protocol(detail: &str) -> LocalDaemonError {
    LocalDaemonError::Protocol { operation: "watch-ipn-bus".to_owned(), detail: detail.to_owned() }
}

#[test]
fn a_chunk_yields_its_notifications_in_order() {
    let parsed = vec![empty_object(), empty_object()];
    let notes = chunk_notifications(&parsed, None, "watch-ipn-bus").unwrap();
    assert_eq!(notes.len(), 2);
    assert_eq!(notes[0].invalidation, WatchInvalidation::Nothing);
}

#[test]
fn a_failing_chunk_yields_nothing_and_reports_its_first_failure() {
    let parsed = vec![empty_object(), Ok(JsonValue::Null), Err("eof".to_owned())];
    assert_eq!(
        chunk_notifications(&parsed, Some(protocol("empty notification frame")), "watch-ipn-bus"),
        Err(protocol("notification envelope was not a JSON object"))
    );
    let parsed = vec![empty_object()];
    assert_eq!(
        chunk_notifications(&parsed, Some(protocol("empty notification frame")), "watch-ipn-bus"),
        Err(protocol("empty notification frame"))
    );
}

#[test]
fn a_chunk_may_bring_at_most_the_buffer_limit() {
    let parsed: Vec<_> = (0..MAX_BUFFERED_NOTIFICATIONS).map(|_| empty_object()).collect();
    assert_eq!(chunk_notifications(&parsed, None, "watch-ipn-bus").unwrap().len(), 256);
    let parsed: Vec<_> = (0..=MAX_BUFFERED_NOTIFICATIONS).map(|_| empty_object()).collect();
    assert_eq!(
        chunk_notifications(&parsed, None, "watch-ipn-bus"),
        Err(protocol("too many notifications were buffered in one body frame"))
    );
}
