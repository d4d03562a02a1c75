use tale::domain::{ConnectionPath, LocalState, OperatingSystem};
use tale::json::JsonValue;
use tale::civil::parse_timestamp;
use tale::local::daemon::{
    decode_status, parse_capabilities, parse_name, parse_path, status_snapshot, status_text,
    LocalDaemonError,
};

fn object(entries: Vec<(&str, JsonValue)>) -> JsonValue {
    JsonValue::Object {
        entries: entries.into_iter().map(|(k, v)| (k.to_owned(), v)).collect(),
        rendered: String::new(),
    }
}

fn array(items: Vec<JsonValue>) -> JsonValue {
    JsonValue::Array { items, rendered: String::new() }
}

fn string(value: &str) -> JsonValue {
    JsonValue::String(value.to_owned())
}

fn number(value: u64) -> JsonValue {
    JsonValue::Number { text: value.to_string(), millis: Some(value) }
}

fn status() -> JsonValue {
    let me = object(vec![
        ("ID", string("n1")),
        ("HostName", string("build-01")),
        ("DNSName", string("build-01.example.test.")),
        ("OS", string("Linux")),
        ("UserID", number(7)),
        ("TailscaleIPs", array(vec![string("100.64.0.10")])),
        ("Capabilities", array(vec![string("SSH"), string("file-sharing")])),
        ("ExitNodeOption", JsonValue::Bool(true)),
        ("Created", string("2024-01-02T03:04:05Z")),
        ("LastSeen", number(1_700_000_000)),
        ("CurAddr", string("192.0.2.1:41641")),
        ("Active", JsonValue::Bool(true)),
    ]);
    let peer = object(vec![
        ("ID", string("n2")),
        ("Name", string("studio")),
        ("Relay", string("fra")),
        ("ShareeNode", JsonValue::Bool(true)),
    ]);
    let broken = object(vec![("HostName", string("no-id"))]);
    object(vec![
        ("BackendState", string("Running")),
        ("Self", me),
        ("Peer", object(vec![("key-a", peer), ("key-b", broken)])),
        ("User", object(vec![("7", object(vec![("DisplayName", string("Alice"))]))])),
        ("CurrentTailnet", object(vec![("Name", string("example.test"))])),
        ("MagicDNSSuffix", string("example.test")),
    ])
}

#[test]
fn status_report_reads_the_node_and_its_peers() {
    let report = status();
    let snapshot = decode_status(&Ok(report), "1.98.9".to_owned(), None, 42).unwrap();
    assert_eq!(snapshot.observed_at, 42);
    assert_eq!(snapshot.client_version, "1.98.9");
    assert_eq!(snapshot.backend_state, LocalState::Running);
    assert_eq!(snapshot.current_tailnet, Some("example.test".to_owned()));
    assert_eq!(snapshot.magic_dns_suffix, Some("example.test".to_owned()));
    let me = &snapshot.self_node;
    assert_eq!(me.id, "n1");
    assert_eq!(me.display_name, "build-01");
    assert_eq!(me.hostname, "build-01");
    assert_eq!(me.os, OperatingSystem::Linux);
    assert_eq!(me.user_id, Some("7".to_owned()));
    assert_eq!(me.owner_label, Some("Alice".to_owned()));
    assert_eq!(me.tailscale_ips, vec!["100.64.0.10".to_owned()]);
    assert_eq!(me.created_at, Some(1_704_164_645));
    assert_eq!(me.last_seen, Some(1_700_000_000));
    assert_eq!(me.path, ConnectionPath::Direct { latency_ms: None });
    assert!(me.active);
    assert!(me.ssh_host_keys_present);
    assert!(me.exit_node_option);
    assert_eq!(
        me.capabilities,
        vec![
            ("exit-node-option".to_owned(), true),
            ("filesharing".to_owned(), true),
            ("ssh".to_owned(), true),
        ]
    );
    assert_eq!(snapshot.peers.len(), 1);
    let peer = &snapshot.peers[0];
    assert_eq!(peer.id, "n2");
    assert_eq!(peer.display_name, "studio");
    assert_eq!(peer.path, ConnectionPath::Derp { region: "fra".to_owned() });
    assert!(peer.shared);
    assert_eq!(peer.owner_label, None);
    assert_eq!(peer.os, OperatingSystem::Unknown("unknown".to_owned()));
}

#[test]
fn status_without_a_usable_self_node_is_refused() {
    assert_eq!(
        decode_status(&Ok(object(vec![])), "v".to_owned(), None, 0),
        Err("required self node was not returned".to_owned())
    );
    assert_eq!(
        decode_status(&Ok(object(vec![("Self", object(vec![]))])), "v".to_owned(), None, 0),
        Err("local node has no stable identity".to_owned())
    );
    assert_eq!(
        decode_status(&Ok(object(vec![("Self", string("x"))])), "v".to_owned(), None, 0),
        Err("local node was not an object".to_owned())
    );
    let bad_peers = object(vec![("Self", object(vec![("ID", string("n1"))])), ("Peers", string("x"))]);
    assert_eq!(
        decode_status(&Ok(bad_peers), "v".to_owned(), None, 0),
        Err("peer collection was not an object or array".to_owned())
    );
    assert_eq!(
        decode_status(&Err("EOF".to_owned()), "v".to_owned(), None, 0),
        Err("invalid JSON: EOF".to_owned())
    );
}

#[test]
fn health_messages_degrade_a_running_node() {
    let report = object(vec![
        ("Self", object(vec![("ID", string("n1"))])),
        ("Health", array(vec![string("DNS is broken")])),
    ]);
    let snapshot = decode_status(&Ok(report), "v".to_owned(), None, 0).unwrap();
    assert_eq!(
        snapshot.backend_state,
        LocalState::Degraded { health_messages: vec!["DNS is broken".to_owned()] }
    );
    assert_eq!(snapshot.self_node.display_name, "n1");
    assert_eq!(snapshot.self_node.path, ConnectionPath::Unknown("path not returned".to_owned()));
}

#[test]
fn a_leading_minus_never_makes_a_negative_year() {
    assert_eq!(parse_timestamp("-9223372036854775808-03-01T00:00:00Z"), None);
    let node = object(vec![
        ("ID", string("n1")),
        ("Created", string("-9223372036854775808-03-01T00:00:00Z")),
        ("CreatedAt", string("1970-01-02 00:00:10+02:00")),
    ]);
    let snapshot = decode_status(&Ok(object(vec![("Self", node)])), "v".to_owned(), None, 0).unwrap();
    assert_eq!(snapshot.self_node.created_at, Some(86_410));
}

#[test]
fn paths_prefer_peer_relays_then_derp_then_endpoints() {
    let relayed = object(vec![("PeerRelay", string("relay-1")), ("Relay", string("fra"))]);
    assert_eq!(parse_path(&relayed, None, Some("fra")), ConnectionPath::PeerRelay { peer: "relay-1".to_owned() });
    let idle = object(vec![("Active", JsonValue::Bool(false))]);
    assert_eq!(parse_path(&idle, Some(""), Some("FALSE")), ConnectionPath::Idle);
    assert_eq!(
        parse_path(&object(vec![("active", string("yes"))]), None, None),
        ConnectionPath::Unknown("active without endpoint".to_owned())
    );
}

#[test]
fn capabilities_keep_the_last_value_of_a_name() {
    let node = object(vec![
        ("capabilities", object(vec![("Funnel", JsonValue::Bool(true)), ("fun-nel", JsonValue::Bool(false)), ("x", string("y"))])),
        ("Approved", string("no")),
    ]);
    assert_eq!(
        parse_capabilities(&node),
        vec![("approved".to_owned(), false), ("funnel".to_owned(), false)]
    );
}

#[test]
fn tailnet_names_come_from_strings_or_objects() {
    assert_eq!(parse_name(Some(&string("corp"))), Some("corp".to_owned()));
    assert_eq!(parse_name(Some(&string(""))), None);
    assert_eq!(parse_name(Some(&object(vec![("Domain", string("corp.example"))]))), Some("corp.example".to_owned()));
    assert_eq!(parse_name(None), None);
}

#[test]
fn status_bodies_must_be_utf8() {
    assert_eq!(status_text(b"{}"), Ok("{}".to_owned()));
    match status_text(&[0xff, 0xfe]) {
        Err(LocalDaemonError::Decode { operation, detail }) => {
            assert_eq!(operation, "status");
            assert!(detail.starts_with("response was not UTF-8: "));
        }
        other => panic!("unexpected {other:?}"),
    }
}

#[test]
fn snapshots_carry_the_announced_version() {
    let report = object(vec![("Self", object(vec![("ID", string("n1"))]))]);
    let snapshot = status_snapshot(&Ok(report), Some("1.98.9".to_owned()), 5).unwrap();
    assert_eq!(snapshot.server_version, Some("1.98.9".to_owned()));
    assert_eq!(snapshot.snapshot.client_version, "1.98.9");
    let unknown = status_snapshot(&Ok(object(vec![("Self", object(vec![("ID", string("n1"))]))])), None, 5).unwrap();
    assert_eq!(unknown.snapshot.client_version, "unknown");
    assert_eq!(
        status_snapshot(&Ok(object(vec![])), None, 5),
        Err(LocalDaemonError::Decode {
            operation: "status".to_owned(),
            detail: "required self node was not returned".to_owned(),
        })
    );
}

#[test]
fn the_demonstration_snapshot_shows_two_online_machines() {
    let snapshot = tale::mock::local_snapshot();
    assert_eq!(snapshot.observed_at, tale::mock::MOCK_NOW);
    assert_eq!(snapshot.self_node.hostname, "build-01");
    assert_eq!(snapshot.self_node.tailscale_ips, vec!["100.64.0.10".to_owned(), "fd7a:115c:a1e0::10".to_owned()]);
    assert_eq!(snapshot.self_node.advertised_routes, vec!["192.0.2.0/24".to_owned()]);
    assert_eq!(snapshot.self_node.last_seen, Some(tale::mock::MOCK_NOW - 4));
    assert_eq!(snapshot.peers.len(), 1);
    assert_eq!(snapshot.peers[0].id, "node-peer");
    assert!(snapshot.peers[0].advertised_routes.is_empty());
    assert_eq!(snapshot.cert_domains, vec!["build-01.example.test".to_owned()]);
}
