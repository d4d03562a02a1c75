use tale::civil::{days_from_civil, parse_timestamp};
use tale::domain::LocalState;
use tale::json::JsonValue;
use tale::local::client::decode_version;
use tale::domain::OperatingSystem;
use tale::local::daemon::{
    http_status_error, parse_os, validate_server_version, LocalEndpointKind,
};
use tale::local::daemon::{backend_state, decode_notification, LocalDaemonError, NewlineJsonDecoder, WatchInvalidation};
use tale::local::policy::{decode_policy, PolicyError};

fn object(entries: Vec<(&str, JsonValue)>, rendered: &str) -> JsonValue {
    JsonValue::Object {
        entries: entries.into_iter().map(|(k, v)| (k.to_owned(), v)).collect(),
        rendered: rendered.to_owned(),
    }
}

fn string(value: &str) -> JsonValue {
    JsonValue::String(value.to_owned())
}

#[test]
fn notifications_name_what_changed() {
    let both = Ok(object(vec![("State", JsonValue::Number { text: "6".to_owned(), millis: Some(6) }), ("Prefs", object(vec![], "{}"))], ""));
    assert_eq!(decode_notification(&both, "watch").map(|n| n.invalidation), Ok(WatchInvalidation::Both));
    let nothing = Ok(object(vec![("State", JsonValue::Null), ("Prefs", JsonValue::Null)], ""));
    assert_eq!(decode_notification(&nothing, "watch").map(|n| n.invalidation), Ok(WatchInvalidation::Nothing));
    let error = Ok(object(vec![("ErrMessage", string("daemon stopping"))], ""));
    assert_eq!(
        decode_notification(&error, "watch").map(|n| n.invalidation),
        Ok(WatchInvalidation::DaemonError { detail: "daemon stopping".to_owned() })
    );
    let bad_prefs = Ok(object(vec![("Prefs", JsonValue::Bool(true))], ""));
    assert_eq!(
        decode_notification(&bad_prefs, "watch"),
        Err(LocalDaemonError::Protocol {
            operation: "watch".to_owned(),
            detail: "notification Prefs field was not an object or null".to_owned()
        })
    );
    let invalid = Err("EOF while parsing".to_owned());
    assert_eq!(
        decode_notification(&invalid, "watch"),
        Err(LocalDaemonError::Protocol {
            operation: "watch".to_owned(),
            detail: "notification JSON was invalid: EOF while parsing".to_owned()
        })
    );
}

#[test]
fn the_stream_is_framed_by_newlines() {
    let mut decoder = NewlineJsonDecoder::new(8);
    let (frames, error) = decoder.push(b"{}\n{\"a\"", "watch");
    assert_eq!(frames, vec![b"{}".to_vec()]);
    assert_eq!(error, None);
    let (frames, error) = decoder.push(b":1}\n", "watch");
    assert_eq!(frames, vec![b"{\"a\":1}".to_vec()]);
    assert_eq!(error, None);
    assert_eq!(decoder.finish("watch"), Ok(()));
    let (_, error) = decoder.push(b"\n", "watch");
    assert_eq!(error, Some(LocalDaemonError::Protocol { operation: "watch".to_owned(), detail: "empty notification frame".to_owned() }));
    let mut crlf = NewlineJsonDecoder::new(8);
    let (frames, error) = crlf.push(b"{}\r\n", "watch");
    assert!(frames.is_empty());
    assert_eq!(error, Some(LocalDaemonError::Protocol {
        operation: "watch".to_owned(),
        detail: "CRLF framing is not part of the pinned watch contract".to_owned()
    }));
    let mut small = NewlineJsonDecoder::new(2);
    let (_, error) = small.push(b"abc", "watch");
    assert_eq!(error, Some(LocalDaemonError::Protocol {
        operation: "watch".to_owned(),
        detail: "notification exceeded the bounded frame size".to_owned()
    }));
    assert_eq!(small.finish("watch"), Err(LocalDaemonError::Protocol {
        operation: "watch".to_owned(),
        detail: "watch stream closed with an unterminated notification".to_owned()
    }));
}

#[test]
fn backend_states_are_read_in_any_case() {
    assert_eq!(
        backend_state(Some("NeedsLogin"), &Vec::new(), Some("https://login".to_owned())),
        LocalState::NeedsLogin { auth_url: Some("https://login".to_owned()) }
    );
    assert_eq!(backend_state(Some("NoState"), &Vec::new(), None), LocalState::Stopped);
    assert_eq!(backend_state(Some("Running"), &Vec::new(), None), LocalState::Running);
    assert_eq!(
        backend_state(None, &vec!["dns broken".to_owned()], None),
        LocalState::Degraded { health_messages: vec!["dns broken".to_owned()] }
    );
}

#[test]
fn policy_fixture_keeps_source_and_effective_value() {
    let settings = object(
        vec![(
            "ssh",
            object(
                vec![
                    ("Origin", object(vec![("Name", string("mdm")), ("Scope", string("Device"))], "")),
                    ("Value", JsonValue::Bool(false)),
                ],
                "",
            ),
        )],
        "",
    );
    let document = Ok(object(vec![("Summary", object(vec![], "{}")), ("Settings", settings)], ""));
    let result = decode_policy(&document);
    assert!(result.is_ok());
    if let Ok(result) = result {
        assert_eq!(result[0].source.as_deref(), Some("mdm (Device)"));
        assert_eq!(result[0].value.as_deref(), Some("false"));
        assert_eq!(result[0].error, None);
    }
}

#[test]
fn policy_entries_are_sorted_and_auth_keys_hidden() {
    let settings = object(
        vec![
            ("Zeta", object(vec![("Value", JsonValue::Number { text: "3".to_owned(), millis: Some(3) })], "")),
            ("AuthKey", object(vec![("Value", string("tskey-secret")), ("Error", JsonValue::Array { items: vec![], rendered: "[]".to_owned() })], "")),
        ],
        "",
    );
    let result = decode_policy(&Ok(object(vec![("Settings", settings)], ""))).unwrap();
    assert_eq!(result[0].name, "AuthKey");
    assert_eq!(result[0].value.as_deref(), Some("[redacted]"));
    assert_eq!(result[0].error.as_deref(), Some("[]"));
    assert_eq!(result[1].name, "Zeta");
    assert_eq!(result[1].value.as_deref(), Some("3"));
    assert_eq!(
        decode_policy(&Ok(object(vec![], ""))),
        Err(PolicyError::InvalidJson("policy response did not contain a Settings object".to_owned()))
    );
    assert_eq!(
        decode_policy(&Ok(object(vec![("Settings", object(vec![("x", JsonValue::Null)], ""))], ""))),
        Err(PolicyError::InvalidJson("policy setting x was not an object".to_owned()))
    );
}

#[test]
fn versions_are_read_from_known_fields() {
    let info = decode_version(&Ok(object(
        vec![("short", string("1.98.9")), ("DaemonVersion", string("1.98.8")), ("full", string("1.98.9-tabc"))],
        "",
    )));
    assert!(info.is_ok());
    if let Ok(info) = info {
        assert_eq!(info.version, "1.98.9");
        assert_eq!(info.daemon_version.as_deref(), Some("1.98.8"));
        assert_eq!(info.build.as_deref(), Some("1.98.9-tabc"));
    }
    assert_eq!(
        decode_version(&Ok(object(vec![("version", JsonValue::Number { text: "1".to_owned(), millis: Some(1) })], ""))),
        Err("required CLI version was not returned".to_owned())
    );
    assert_eq!(decode_version(&Err("bad".to_owned())), Err("invalid JSON: bad".to_owned()));
}

#[test]
fn timestamps_count_seconds_since_the_epoch() {
    assert_eq!(days_from_civil(1970, 1, 1), Some(0));
    assert_eq!(days_from_civil(2000, 3, 1), Some(11017));
    assert_eq!(days_from_civil(1969, 12, 31), Some(-1));
    assert_eq!(parse_timestamp("1970-01-01T00:00:00Z"), Some(0));
    assert_eq!(parse_timestamp("2024-02-29T12:34:56.789+02:00"), Some(1709210096));
    assert_eq!(parse_timestamp("2024-02-29 00:00:01"), Some(1709164801));
    assert_eq!(parse_timestamp("1969-12-31T23:59:59Z"), None);
    assert_eq!(parse_timestamp("2024-13-01T00:00:00Z"), None);
    assert_eq!(parse_timestamp("not a time"), None);
}

#[test]
fn server_versions_outside_the_client_family_are_refused() {
    assert_eq!(validate_server_version(None), Ok(()));
    assert_eq!(validate_server_version(Some("1.98.9")), Ok(()));
    assert_eq!(validate_server_version(Some("1.98.9-t1234")), Ok(()));
    assert_eq!(
        validate_server_version(Some("1.98.10")),
        Err(LocalDaemonError::UnsupportedVersion {
            expected: "1.98.9".to_owned(),
            actual: "1.98.10".to_owned(),
        })
    );
}

#[test]
fn http_failures_say_whether_permission_was_denied() {
    assert_eq!(
        http_status_error("/localapi/v0/status", 403, LocalEndpointKind::UnixSocket),
        LocalDaemonError::HttpStatus {
            operation: "/localapi/v0/status".to_owned(),
            status: 403,
            detail: "GET /localapi/v0/status over unix socket: LocalAPI permission was denied".to_owned(),
        }
    );
    assert_eq!(
        http_status_error("/x", 500, LocalEndpointKind::WindowsNamedPipe),
        LocalDaemonError::HttpStatus {
            operation: "/x".to_owned(),
            status: 500,
            detail: "GET /x over Windows named pipe: LocalAPI returned a non-success status".to_owned(),
        }
    );
}

#[test]
fn operating_system_names_are_read_without_case() {
    assert_eq!(parse_os(Some("Darwin".to_owned())), OperatingSystem::MacOS);
    assert_eq!(parse_os(Some("WIN".to_owned())), OperatingSystem::Windows);
    assert_eq!(parse_os(Some("Plan9".to_owned())), OperatingSystem::Unknown("plan9".to_owned()));
    assert_eq!(parse_os(None), OperatingSystem::Unknown("unknown".to_owned()));
}

#[test]
fn a_fresh_decoder_frames_an_empty_envelope_and_finishes_after_a_newline() {
    let mut decoder = NewlineJsonDecoder::new(2);
    assert_eq!(decoder.finish("watch"), Ok(()));
    let (frames, error) = decoder.push(b"{}\n", "watch");
    assert_eq!(frames, vec![b"{}".to_vec()]);
    assert!(error.is_none());
    assert_eq!(decoder.finish("watch"), Ok(()));
    let envelope = Ok(object(Vec::new(), "{}"));
    assert_eq!(decode_notification(&envelope, "watch").map(|n| n.invalidation), Ok(WatchInvalidation::Nothing));
    let mut open = NewlineJsonDecoder::new(8);
    let (frames, error) = open.push(b"{}\n{", "watch");
    assert_eq!(frames.len(), 1);
    assert!(error.is_none());
    assert_eq!(
        open.finish("watch"),
        Err(LocalDaemonError::Protocol {
            operation: "watch".to_owned(),
            detail: "watch stream closed with an unterminated notification".to_owned()
        })
    );
}
