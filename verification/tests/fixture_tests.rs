use tale::domain::{ConnectionPath, Liveness, OperatingSystem};
use tale::mock::{devices, load_devices, MockLoadScenario, MOCK_NOW};

#[test]
fn the_demonstration_tailnet_has_fourteen_devices() {
    let ds = devices();
    assert_eq!(ds.len(), 14);
    let first = &ds[0];
    assert_eq!(first.id, "dev-a01");
    assert_eq!(first.display_name, "build-01");
    assert_eq!(first.os, OperatingSystem::Linux);
    assert_eq!(first.liveness, Liveness::Online);
    assert_eq!(first.path, ConnectionPath::Direct { latency_ms: Some(18) });
    assert_eq!(first.addresses, vec!["192.0.2.10".to_owned(), "2001:db8:42::10".to_owned()]);
    assert_eq!(first.tags, vec!["server".to_owned(), "prod".to_owned()]);
    assert_eq!(first.version.as_deref(), Some("1.98.9"));
    assert_eq!(first.created_at, Some(MOCK_NOW - 7_776_000));
    assert!(first.capabilities.exit_node && first.capabilities.ssh);
    let last = &ds[13];
    assert_eq!(last.id, "dev-n14");
    assert_eq!(last.liveness, Liveness::Unknown);
    assert_eq!(last.path, ConnectionPath::NoPath);
    assert!(last.capabilities.expired && !last.capabilities.approved);
    let mut ids: Vec<&str> = ds.iter().map(|d| d.id.as_str()).collect();
    ids.sort();
    ids.dedup();
    assert_eq!(ids.len(), 14);
}

#[test]
fn demonstration_refreshes_act_out_each_scenario() {
    assert_eq!(
        load_devices(MockLoadScenario::Failure).unwrap_err(),
        "mock refresh failed: fictional source timeout"
    );
    let (ds, at) = load_devices(MockLoadScenario::Stale).unwrap();
    assert_eq!(ds.len(), 14);
    assert_eq!(at, MOCK_NOW - 240);
    let (ds, at) = load_devices(MockLoadScenario::Success).unwrap();
    assert_eq!(ds.len(), 14);
    assert_eq!(at, MOCK_NOW);
    let (_, at) = load_devices(MockLoadScenario::Initial).unwrap();
    assert_eq!(at, MOCK_NOW);
}
