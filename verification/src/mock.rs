//! The fictional local client that the interface shows in its demonstration
//! mode.
use vstd::prelude::*;

use crate::domain::{
    opt_view, ConnectionPath, ConnectionPathView, Device, DeviceCapabilities, Liveness, LocalDevice, LocalSnapshot,
    LocalState, OperatingSystem, OperatingSystemView, Timestamp,
};
use crate::local::client::views;
use crate::text::owned_strings;

verus! {

/// The fixed "now" of the demonstration data.
pub const MOCK_NOW: Timestamp = 1754000000;

/// A demonstration device: a Linux host owned by Alice, seen four seconds
/// ago over a direct path.
pub open spec fn mock_device(
    d: LocalDevice,
    id: Seq<char>,
    name: Seq<char>,
    dns_name: Seq<char>,
    addresses: Seq<Seq<char>>,
    routes: Seq<Seq<char>>,
    online: bool,
) -> bool {
    &&& d.id@ == id
    &&& d.public_key is None
    &&& d.display_name@ == name
    &&& d.hostname@ == name
    &&& d.dns_name matches Some(n) && n@ == dns_name
    &&& d.os == OperatingSystem::Linux
    &&& d.version matches Some(v) && v@ == "1.98.9"@
    &&& d.owner_label matches Some(o) && o@ == "Alice"@
    &&& d.user_id matches Some(u) && u@ == "user-alice"@
    &&& views(d.tags@) == seq!["tag:server"@]
    &&& views(d.tailscale_ips@) == addresses
    &&& views(d.advertised_routes@) == routes
    &&& d.current_endpoint is None
    &&& d.relay_region is None
    &&& d.path == ConnectionPath::Direct { latency_ms: Some(18) }
    &&& d.online == Some(online)
    &&& d.active == online
    &&& d.rx_bytes == Some(8400000u64)
    &&& d.tx_bytes == Some(2100000u64)
    &&& d.created_at == Some((MOCK_NOW - 7776000) as u64)
    &&& d.last_seen == Some((MOCK_NOW - 4) as u64)
    &&& d.last_handshake == Some((MOCK_NOW - 4) as u64)
    &&& !d.exit_node
    &&& !d.exit_node_option
    &&& d.ssh_host_keys_present
    &&& !d.shared
    &&& d.capabilities@.len() == 1 && d.capabilities@[0].0@ == "ssh"@ && d.capabilities@[0].1
}

fn local_device(
    id: &str,
    name: &str,
    dns_name: &str,
    addresses: &[&str],
    routes: &[&str],
    online: bool,
) -> (r: LocalDevice)
    ensures
        mock_device(r, id@, name@, dns_name@, addresses@.map_values(|a: &str| a@), routes@.map_values(|a: &str| a@), online),
{
    let tags = owned_strings(&["tag:server"]);
    let ips = owned_strings(addresses);
    let advertised = owned_strings(routes);
    let mut capabilities: Vec<(String, bool)> = Vec::new();
    capabilities.push(("ssh".to_owned(), true));
    proof {
        assert(views(tags@) =~= seq!["tag:server"@]);
        assert(views(ips@) =~= addresses@.map_values(|a: &str| a@));
        assert(views(advertised@) =~= routes@.map_values(|a: &str| a@));
    }
    LocalDevice {
        id: id.to_owned(),
        public_key: None,
        display_name: name.to_owned(),
        hostname: name.to_owned(),
        dns_name: Some(dns_name.to_owned()),
        os: OperatingSystem::Linux,
        version: Some("1.98.9".to_owned()),
        owner_label: Some("Alice".to_owned()),
        user_id: Some("user-alice".to_owned()),
        tags,
        tailscale_ips: ips,
        advertised_routes: advertised,
        current_endpoint: None,
        relay_region: None,
        path: ConnectionPath::Direct { latency_ms: Some(18) },
        online: Some(online),
        active: online,
        rx_bytes: Some(8400000),
        tx_bytes: Some(2100000),
        created_at: Some(MOCK_NOW - 7776000),
        last_seen: Some(MOCK_NOW - 4),
        last_handshake: Some(MOCK_NOW - 4),
        exit_node: false,
        exit_node_option: false,
        ssh_host_keys_present: true,
        shared: false,
        capabilities,
    }
}

/// The demonstration snapshot: this machine `build-01` with one subnet route,
/// and one peer, `studio-mac`, both online.
pub fn local_snapshot() -> (r: LocalSnapshot)
    ensures
        r.observed_at == MOCK_NOW,
        r.client_version@ == "1.98.9"@,
        r.daemon_version matches Some(v) && v@ == "1.98.9"@,
        r.backend_state == LocalState::Mock,
        r.health_messages@.len() == 0,
        r.current_tailnet matches Some(t) && t@ == "example.test"@,
        r.magic_dns_suffix matches Some(s) && s@ == "example.test"@,
        views(r.cert_domains@) == seq!["build-01.example.test"@],
        mock_device(
            r.self_node,
            "node-local"@,
            "build-01"@,
            "build-01.example.test"@,
            seq!["100.64.0.10"@, "fd7a:115c:a1e0::10"@],
            seq!["192.0.2.0/24"@],
            true,
        ),
        r.peers@.len() == 1,
        mock_device(
            r.peers@[0],
            "node-peer"@,
            "studio-mac"@,
            "studio-mac.example.test"@,
            seq!["100.64.0.11"@],
            Seq::empty(),
            true,
        ),
{
    let addresses = ["100.64.0.10", "fd7a:115c:a1e0::10"];
    let routes = ["192.0.2.0/24"];
    let self_node = local_device("node-local", "build-01", "build-01.example.test", &addresses, &routes, true);
    let peer_addresses = ["100.64.0.11"];
    let no_routes: [&str; 0] = [];
    let peer = local_device("node-peer", "studio-mac", "studio-mac.example.test", &peer_addresses, &no_routes, true);
    let cert_domains = owned_strings(&["build-01.example.test"]);
    let mut peers: Vec<LocalDevice> = Vec::new();
    peers.push(peer);
    proof {
        assert(addresses@.map_values(|a: &str| a@) =~= seq!["100.64.0.10"@, "fd7a:115c:a1e0::10"@]);
        assert(routes@.map_values(|a: &str| a@) =~= seq!["192.0.2.0/24"@]);
        assert(peer_addresses@.map_values(|a: &str| a@) =~= seq!["100.64.0.11"@]);
        assert(no_routes@.map_values(|a: &str| a@) =~= Seq::<Seq<char>>::empty());
        assert(views(cert_domains@) =~= seq!["build-01.example.test"@]);
    }
    LocalSnapshot {
        observed_at: MOCK_NOW,
        client_version: "1.98.9".to_owned(),
        daemon_version: Some("1.98.9".to_owned()),
        backend_state: LocalState::Mock,
        health_messages: Vec::new(),
        current_tailnet: Some("example.test".to_owned()),
        magic_dns_suffix: Some("example.test".to_owned()),
        cert_domains,
        self_node,
        peers,
    }
}

/// Which outcome the demonstration refresh acts out.
#[derive(Debug, Clone, Copy, PartialEq, Eq, Structural)]
pub enum MockLoadScenario {
    Initial,
    Success,
    Failure,
    Stale,
}

pub open spec fn opt_str(o: Option<&str>) -> Option<Seq<char>> {
    match o {
        Some(s) => Some(s@),
        None => None,
    }
}

/// A demonstration tailnet device: running version 1.98.9, created ninety
/// days before the demonstration's "now", with no advertised routes and no
/// traffic counts.
pub open spec fn fixture_device(
    d: Device,
    id: Seq<char>,
    display_name: Seq<char>,
    hostname: Seq<char>,
    owner: Option<Seq<char>>,
    owner_label: Option<Seq<char>>,
    os: OperatingSystemView,
    liveness: Liveness,
    path: ConnectionPathView,
    addresses: Seq<Seq<char>>,
    tags: Seq<Seq<char>>,
    last_seen: Option<Timestamp>,
    capabilities: DeviceCapabilities,
) -> bool {
    &&& d.id@ == id
    &&& d.display_name@ == display_name
    &&& d.hostname@ == hostname
    &&& opt_view(d.owner) == owner
    &&& opt_view(d.owner_label) == owner_label
    &&& d.os@ == os
    &&& d.version matches Some(v) && v@ == "1.98.9"@
    &&& d.liveness == liveness
    &&& d.path@ == path
    &&& views(d.addresses@) == addresses
    &&& d.advertised_routes@.len() == 0
    &&& views(d.tags@) == tags
    &&& d.last_seen == last_seen
    &&& d.created_at == Some((MOCK_NOW - 7776000) as u64)
    &&& d.rx_bytes is None
    &&& d.tx_bytes is None
    &&& d.capabilities == capabilities
}

fn copy_text(o: Option<&str>) -> (r: Option<String>)
    ensures
        opt_view(r) == opt_str(o),
{
    match o {
        Some(s) => Some(s.to_owned()),
        None => None,
    }
}

fn device(
    id: &str,
    display_name: &str,
    hostname: &str,
    owner: Option<&str>,
    owner_label: Option<&str>,
    os: OperatingSystem,
    liveness: Liveness,
    path: ConnectionPath,
    addresses: &[&str],
    tags: &[&str],
    last_seen: Option<Timestamp>,
    capabilities: DeviceCapabilities,
) -> (r: Device)
    ensures
        fixture_device(
            r,
            id@,
            display_name@,
            hostname@,
            opt_str(owner),
            opt_str(owner_label),
            os@,
            liveness,
            path@,
            addresses@.map_values(|a: &str| a@),
            tags@.map_values(|a: &str| a@),
            last_seen,
            capabilities,
        ),
{
    let address_list = owned_strings(addresses);
    let tag_list = owned_strings(tags);
    proof {
        assert(views(address_list@) =~= addresses@.map_values(|a: &str| a@));
        assert(views(tag_list@) =~= tags@.map_values(|a: &str| a@));
    }
    let r = Device {
        id: id.to_owned(),
        display_name: display_name.to_owned(),
        hostname: hostname.to_owned(),
        owner: copy_text(owner),
        owner_label: copy_text(owner_label),
        os,
        version: Some("1.98.9".to_owned()),
        liveness,
        path,
        addresses: address_list,
        advertised_routes: Vec::new(),
        tags: tag_list,
        last_seen,
        created_at: Some(MOCK_NOW - 7776000),
        rx_bytes: None,
        tx_bytes: None,
        capabilities,
    };
    r
}

/// The fourteen devices of the demonstration tailnet.
pub open spec fn is_fixture(ds: Seq<Device>) -> bool {
    ds.len() == 14
        && fixture_device(
            ds[0],
            "dev-a01"@,
            "build-01"@,
            "build-01.example.com"@,
            Some("alice@example.com"@),
            Some("Alice"@),
            OperatingSystemView::Linux,
            Liveness::Online,
            ConnectionPathView::Direct { latency_ms: Some(18) },
            seq!["192.0.2.10"@, "2001:db8:42::10"@],
            seq!["server"@, "prod"@],
            Some((MOCK_NOW - 3) as u64),
            DeviceCapabilities { exit_node: true, exit_node_option: false, subnet_router: true, ssh: true, funnel: false, shared: false, expired: false, approved: true },
        )
        && fixture_device(
            ds[1],
            "dev-b02"@,
            "studio-mac"@,
            "studio-mac.example.com"@,
            Some("alice@example.com"@),
            Some("Alice"@),
            OperatingSystemView::MacOS,
            Liveness::Online,
            ConnectionPathView::Derp { region: "fra"@ },
            seq!["192.0.2.11"@],
            seq!["design"@],
            Some((MOCK_NOW - 12) as u64),
            DeviceCapabilities { exit_node: false, exit_node_option: false, subnet_router: false, ssh: true, funnel: true, shared: false, expired: false, approved: true },
        )
        && fixture_device(
            ds[2],
            "dev-c03"@,
            "win-lab"@,
            "win-lab.example.com"@,
            Some("bob@example.com"@),
            Some("Bob"@),
            OperatingSystemView::Windows,
            Liveness::Offline,
            ConnectionPathView::PeerRelay { peer: "build-01"@ },
            seq!["192.0.2.12"@],
            seq!["lab"@, "shared"@],
            Some((MOCK_NOW - 7200) as u64),
            DeviceCapabilities { exit_node: false, exit_node_option: false, subnet_router: true, ssh: false, funnel: false, shared: true, expired: false, approved: true },
        )
        && fixture_device(
            ds[3],
            "dev-d04"@,
            "pocket"@,
            "pocket.example.com"@,
            Some("carol@example.com"@),
            Some("Carol"@),
            OperatingSystemView::IOS,
            Liveness::Unknown,
            ConnectionPathView::NoPath,
            Seq::<Seq<char>>::empty(),
            seq!["mobile"@],
            None,
            DeviceCapabilities { exit_node: false, exit_node_option: false, subnet_router: false, ssh: false, funnel: false, shared: false, expired: false, approved: true },
        )
        && fixture_device(
            ds[4],
            "dev-e05"@,
            "tablet"@,
            "tablet.example.com"@,
            Some("carol@example.com"@),
            Some("Carol"@),
            OperatingSystemView::Android,
            Liveness::Online,
            ConnectionPathView::Direct { latency_ms: Some(42) },
            seq!["198.51.100.5"@, "2001:db8:42::5"@],
            seq!["mobile"@, "personal"@],
            Some((MOCK_NOW - 60) as u64),
            DeviceCapabilities { exit_node: false, exit_node_option: false, subnet_router: false, ssh: false, funnel: false, shared: false, expired: false, approved: true },
        )
        && fixture_device(
            ds[5],
            "dev-f06"@,
            "edge-relay"@,
            "edge-relay.example.com"@,
            Some("dana@example.com"@),
            Some("Dana"@),
            OperatingSystemView::Unknown("plan9"@),
            Liveness::Online,
            ConnectionPathView::PeerRelay { peer: "build-01"@ },
            seq!["203.0.113.6"@],
            seq!["relay"@, "edge"@],
            Some((MOCK_NOW - 90) as u64),
            DeviceCapabilities { exit_node: true, exit_node_option: false, subnet_router: true, ssh: true, funnel: false, shared: false, expired: false, approved: true },
        )
        && fixture_device(
            ds[6],
            "dev-g07"@,
            "archive-node-with-a-deliberately-long-fictional-name"@,
            "archive.example.com"@,
            Some("erin@example.com"@),
            Some("Erin"@),
            OperatingSystemView::Linux,
            Liveness::Offline,
            ConnectionPathView::Derp { region: "syd"@ },
            seq!["203.0.113.7"@],
            seq!["archive"@],
            Some((MOCK_NOW - 86400) as u64),
            DeviceCapabilities { exit_node: false, exit_node_option: false, subnet_router: true, ssh: true, funnel: false, shared: false, expired: true, approved: true },
        )
        && fixture_device(
            ds[7],
            "dev-h08"@,
            "审批-标签"@,
            "pending.example.com"@,
            Some("faye@example.com"@),
            Some("Faye"@),
            OperatingSystemView::Linux,
            Liveness::Unknown,
            ConnectionPathView::NoPath,
            seq!["192.0.2.18"@],
            seq!["pending"@, "新"@],
            Some((MOCK_NOW - 400) as u64),
            DeviceCapabilities { exit_node: false, exit_node_option: false, subnet_router: false, ssh: false, funnel: false, shared: false, expired: false, approved: false },
        )
        && fixture_device(
            ds[8],
            "dev-i09"@,
            "funnel-demo"@,
            "funnel.example.com"@,
            Some("glen@example.com"@),
            Some("Glen"@),
            OperatingSystemView::MacOS,
            Liveness::Online,
            ConnectionPathView::Direct { latency_ms: None },
            seq!["198.51.100.9"@],
            seq!["demo"@, "public"@],
            Some((MOCK_NOW - 15) as u64),
            DeviceCapabilities { exit_node: false, exit_node_option: false, subnet_router: false, ssh: true, funnel: true, shared: false, expired: false, approved: true },
        )
        && fixture_device(
            ds[9],
            "dev-j10"@,
            "shared-laptop"@,
            "shared.example.com"@,
            None,
            Some("Shared workspace"@),
            OperatingSystemView::Windows,
            Liveness::Offline,
            ConnectionPathView::Derp { region: "nyc"@ },
            Seq::<Seq<char>>::empty(),
            seq!["shared"@],
            Some((MOCK_NOW - 12000) as u64),
            DeviceCapabilities { exit_node: false, exit_node_option: false, subnet_router: false, ssh: false, funnel: false, shared: true, expired: false, approved: true },
        )
        && fixture_device(
            ds[10],
            "dev-k11"@,
            "subnet-gateway"@,
            "gateway.example.com"@,
            Some("hugo@example.com"@),
            Some("Hugo"@),
            OperatingSystemView::Linux,
            Liveness::Online,
            ConnectionPathView::Direct { latency_ms: Some(7) },
            seq!["192.0.2.21"@, "2001:db8:42::21"@],
            seq!["router"@, "office"@],
            Some((MOCK_NOW - 5) as u64),
            DeviceCapabilities { exit_node: true, exit_node_option: false, subnet_router: true, ssh: true, funnel: false, shared: false, expired: false, approved: true },
        )
        && fixture_device(
            ds[11],
            "dev-l12"@,
            "quiet-phone"@,
            "quiet-phone.example.com"@,
            Some("ivy@example.com"@),
            Some("Ivy"@),
            OperatingSystemView::Android,
            Liveness::Offline,
            ConnectionPathView::NoPath,
            seq!["192.0.2.22"@],
            seq!["personal"@],
            Some((MOCK_NOW - 172800) as u64),
            DeviceCapabilities { exit_node: false, exit_node_option: false, subnet_router: false, ssh: false, funnel: false, shared: false, expired: false, approved: true },
        )
        && fixture_device(
            ds[12],
            "dev-m13"@,
            "relay-observer"@,
            "relay-observer.example.com"@,
            Some("jules@example.com"@),
            Some("Jules"@),
            OperatingSystemView::Unknown("haiku"@),
            Liveness::Online,
            ConnectionPathView::Derp { region: "ams"@ },
            seq!["203.0.113.13"@],
            seq!["relay"@],
            Some((MOCK_NOW - 33) as u64),
            DeviceCapabilities { exit_node: false, exit_node_option: false, subnet_router: false, ssh: true, funnel: false, shared: false, expired: false, approved: true },
        )
        && fixture_device(
            ds[13],
            "dev-n14"@,
            "approval-expired"@,
            "approval-expired.example.com"@,
            Some("kira@example.com"@),
            Some("Kira"@),
            OperatingSystemView::IOS,
            Liveness::Unknown,
            ConnectionPathView::NoPath,
            seq!["198.51.100.14"@],
            seq!["expired"@, "approval"@],
            Some((MOCK_NOW - 604800) as u64),
            DeviceCapabilities { exit_node: false, exit_node_option: false, subnet_router: false, ssh: false, funnel: false, shared: false, expired: true, approved: false },
        )
}

/// The devices of the demonstration tailnet.
#[verifier::rlimit(60)]
pub fn devices() -> (r: Vec<Device>)
    ensures
        is_fixture(r@),
{
    let mut out: Vec<Device> = Vec::new();
    let addresses0: [&str; 2] = ["192.0.2.10", "2001:db8:42::10"];
    let tags0: [&str; 2] = ["server", "prod"];
    proof {
        assert(addresses0@.map_values(|a: &str| a@) =~= seq!["192.0.2.10"@, "2001:db8:42::10"@]);
        assert(tags0@.map_values(|a: &str| a@) =~= seq!["server"@, "prod"@]);
    }
    out.push(device(
        "dev-a01",
        "build-01",
        "build-01.example.com",
        Some("alice@example.com"),
        Some("Alice"),
        OperatingSystem::Linux,
        Liveness::Online,
        ConnectionPath::Direct { latency_ms: Some(18) },
        &addresses0,
        &tags0,
        Some(MOCK_NOW - 3),
        DeviceCapabilities { exit_node: true, exit_node_option: false, subnet_router: true, ssh: true, funnel: false, shared: false, expired: false, approved: true },
    ));
    let addresses1: [&str; 1] = ["192.0.2.11"];
    let tags1: [&str; 1] = ["design"];
    proof {
        assert(addresses1@.map_values(|a: &str| a@) =~= seq!["192.0.2.11"@]);
        assert(tags1@.map_values(|a: &str| a@) =~= seq!["design"@]);
    }
    out.push(device(
        "dev-b02",
        "studio-mac",
        "studio-mac.example.com",
        Some("alice@example.com"),
        Some("Alice"),
        OperatingSystem::MacOS,
        Liveness::Online,
        ConnectionPath::Derp { region: "fra".to_owned() },
        &addresses1,
        &tags1,
        Some(MOCK_NOW - 12),
        DeviceCapabilities { exit_node: false, exit_node_option: false, subnet_router: false, ssh: true, funnel: true, shared: false, expired: false, approved: true },
    ));
    let addresses2: [&str; 1] = ["192.0.2.12"];
    let tags2: [&str; 2] = ["lab", "shared"];
    proof {
        assert(addresses2@.map_values(|a: &str| a@) =~= seq!["192.0.2.12"@]);
        assert(tags2@.map_values(|a: &str| a@) =~= seq!["lab"@, "shared"@]);
    }
    out.push(device(
        "dev-c03",
        "win-lab",
        "win-lab.example.com",
        Some("bob@example.com"),
        Some("Bob"),
        OperatingSystem::Windows,
        Liveness::Offline,
        ConnectionPath::PeerRelay { peer: "build-01".to_owned() },
        &addresses2,
        &tags2,
        Some(MOCK_NOW - 7200),
        DeviceCapabilities { exit_node: false, exit_node_option: false, subnet_router: true, ssh: false, funnel: false, shared: true, expired: false, approved: true },
    ));
    let addresses3: [&str; 0] = [];
    let tags3: [&str; 1] = ["mobile"];
    proof {
        assert(addresses3@.map_values(|a: &str| a@) =~= Seq::<Seq<char>>::empty());
        assert(tags3@.map_values(|a: &str| a@) =~= seq!["mobile"@]);
    }
    out.push(device(
        "dev-d04",
        "pocket",
        "pocket.example.com",
        Some("carol@example.com"),
        Some("Carol"),
        OperatingSystem::IOS,
        Liveness::Unknown,
        ConnectionPath::NoPath,
        &addresses3,
        &tags3,
        None,
        DeviceCapabilities { exit_node: false, exit_node_option: false, subnet_router: false, ssh: false, funnel: false, shared: false, expired: false, approved: true },
    ));
    let addresses4: [&str; 2] = ["198.51.100.5", "2001:db8:42::5"];
    let tags4: [&str; 2] = ["mobile", "personal"];
    proof {
        assert(addresses4@.map_values(|a: &str| a@) =~= seq!["198.51.100.5"@, "2001:db8:42::5"@]);
        assert(tags4@.map_values(|a: &str| a@) =~= seq!["mobile"@, "personal"@]);
    }
    out.push(device(
        "dev-e05",
        "tablet",
        "tablet.example.com",
        Some("carol@example.com"),
        Some("Carol"),
        OperatingSystem::Android,
        Liveness::Online,
        ConnectionPath::Direct { latency_ms: Some(42) },
        &addresses4,
        &tags4,
        Some(MOCK_NOW - 60),
        DeviceCapabilities { exit_node: false, exit_node_option: false, subnet_router: false, ssh: false, funnel: false, shared: false, expired: false, approved: true },
    ));
    let addresses5: [&str; 1] = ["203.0.113.6"];
    let tags5: [&str; 2] = ["relay", "edge"];
    proof {
        assert(addresses5@.map_values(|a: &str| a@) =~= seq!["203.0.113.6"@]);
        assert(tags5@.map_values(|a: &str| a@) =~= seq!["relay"@, "edge"@]);
    }
    out.push(device(
        "dev-f06",
        "edge-relay",
        "edge-relay.example.com",
        Some("dana@example.com"),
        Some("Dana"),
        OperatingSystem::Unknown("plan9".to_owned()),
        Liveness::Online,
        ConnectionPath::PeerRelay { peer: "build-01".to_owned() },
        &addresses5,
        &tags5,
        Some(MOCK_NOW - 90),
        DeviceCapabilities { exit_node: true, exit_node_option: false, subnet_router: true, ssh: true, funnel: false, shared: false, expired: false, approved: true },
    ));
    let addresses6: [&str; 1] = ["203.0.113.7"];
    let tags6: [&str; 1] = ["archive"];
    proof {
        assert(addresses6@.map_values(|a: &str| a@) =~= seq!["203.0.113.7"@]);
        assert(tags6@.map_values(|a: &str| a@) =~= seq!["archive"@]);
    }
    out.push(device(
        "dev-g07",
        "archive-node-with-a-deliberately-long-fictional-name",
        "archive.example.com",
        Some("erin@example.com"),
        Some("Erin"),
        OperatingSystem::Linux,
        Liveness::Offline,
        ConnectionPath::Derp { region: "syd".to_owned() },
        &addresses6,
        &tags6,
        Some(MOCK_NOW - 86400),
        DeviceCapabilities { exit_node: false, exit_node_option: false, subnet_router: true, ssh: true, funnel: false, shared: false, expired: true, approved: true },
    ));
    let addresses7: [&str; 1] = ["192.0.2.18"];
    let tags7: [&str; 2] = ["pending", "新"];
    proof {
        assert(addresses7@.map_values(|a: &str| a@) =~= seq!["192.0.2.18"@]);
        assert(tags7@.map_values(|a: &str| a@) =~= seq!["pending"@, "新"@]);
    }
    out.push(device(
        "dev-h08",
        "审批-标签",
        "pending.example.com",
        Some("faye@example.com"),
        Some("Faye"),
        OperatingSystem::Linux,
        Liveness::Unknown,
        ConnectionPath::NoPath,
        &addresses7,
        &tags7,
        Some(MOCK_NOW - 400),
        DeviceCapabilities { exit_node: false, exit_node_option: false, subnet_router: false, ssh: false, funnel: false, shared: false, expired: false, approved: false },
    ));
    let addresses8: [&str; 1] = ["198.51.100.9"];
    let tags8: [&str; 2] = ["demo", "public"];
    proof {
        assert(addresses8@.map_values(|a: &str| a@) =~= seq!["198.51.100.9"@]);
        assert(tags8@.map_values(|a: &str| a@) =~= seq!["demo"@, "public"@]);
    }
    out.push(device(
        "dev-i09",
        "funnel-demo",
        "funnel.example.com",
        Some("glen@example.com"),
        Some("Glen"),
        OperatingSystem::MacOS,
        Liveness::Online,
        ConnectionPath::Direct { latency_ms: None },
        &addresses8,
        &tags8,
        Some(MOCK_NOW - 15),
        DeviceCapabilities { exit_node: false, exit_node_option: false, subnet_router: false, ssh: true, funnel: true, shared: false, expired: false, approved: true },
    ));
    let addresses9: [&str; 0] = [];
    let tags9: [&str; 1] = ["shared"];
    proof {
        assert(addresses9@.map_values(|a: &str| a@) =~= Seq::<Seq<char>>::empty());
        assert(tags9@.map_values(|a: &str| a@) =~= seq!["shared"@]);
    }
    out.push(device(
        "dev-j10",
        "shared-laptop",
        "shared.example.com",
        None,
        Some("Shared workspace"),
        OperatingSystem::Windows,
        Liveness::Offline,
        ConnectionPath::Derp { region: "nyc".to_owned() },
        &addresses9,
        &tags9,
        Some(MOCK_NOW - 12000),
        DeviceCapabilities { exit_node: false, exit_node_option: false, subnet_router: false, ssh: false, funnel: false, shared: true, expired: false, approved: true },
    ));
    let addresses10: [&str; 2] = ["192.0.2.21", "2001:db8:42::21"];
    let tags10: [&str; 2] = ["router", "office"];
    proof {
        assert(addresses10@.map_values(|a: &str| a@) =~= seq!["192.0.2.21"@, "2001:db8:42::21"@]);
        assert(tags10@.map_values(|a: &str| a@) =~= seq!["router"@, "office"@]);
    }
    out.push(device(
        "dev-k11",
        "subnet-gateway",
        "gateway.example.com",
        Some("hugo@example.com"),
        Some("Hugo"),
        OperatingSystem::Linux,
        Liveness::Online,
        ConnectionPath::Direct { latency_ms: Some(7) },
        &addresses10,
        &tags10,
        Some(MOCK_NOW - 5),
        DeviceCapabilities { exit_node: true, exit_node_option: false, subnet_router: true, ssh: true, funnel: false, shared: false, expired: false, approved: true },
    ));
    let addresses11: [&str; 1] = ["192.0.2.22"];
    let tags11: [&str; 1] = ["personal"];
    proof {
        assert(addresses11@.map_values(|a: &str| a@) =~= seq!["192.0.2.22"@]);
        assert(tags11@.map_values(|a: &str| a@) =~= seq!["personal"@]);
    }
    out.push(device(
        "dev-l12",
        "quiet-phone",
        "quiet-phone.example.com",
        Some("ivy@example.com"),
        Some("Ivy"),
        OperatingSystem::Android,
        Liveness::Offline,
        ConnectionPath::NoPath,
        &addresses11,
        &tags11,
        Some(MOCK_NOW - 172800),
        DeviceCapabilities { exit_node: false, exit_node_option: false, subnet_router: false, ssh: false, funnel: false, shared: false, expired: false, approved: true },
    ));
    let addresses12: [&str; 1] = ["203.0.113.13"];
    let tags12: [&str; 1] = ["relay"];
    proof {
        assert(addresses12@.map_values(|a: &str| a@) =~= seq!["203.0.113.13"@]);
        assert(tags12@.map_values(|a: &str| a@) =~= seq!["relay"@]);
    }
    out.push(device(
        "dev-m13",
        "relay-observer",
        "relay-observer.example.com",
        Some("jules@example.com"),
        Some("Jules"),
        OperatingSystem::Unknown("haiku".to_owned()),
        Liveness::Online,
        ConnectionPath::Derp { region: "ams".to_owned() },
        &addresses12,
        &tags12,
        Some(MOCK_NOW - 33),
        DeviceCapabilities { exit_node: false, exit_node_option: false, subnet_router: false, ssh: true, funnel: false, shared: false, expired: false, approved: true },
    ));
    let addresses13: [&str; 1] = ["198.51.100.14"];
    let tags13: [&str; 2] = ["expired", "approval"];
    proof {
        assert(addresses13@.map_values(|a: &str| a@) =~= seq!["198.51.100.14"@]);
        assert(tags13@.map_values(|a: &str| a@) =~= seq!["expired"@, "approval"@]);
    }
    out.push(device(
        "dev-n14",
        "approval-expired",
        "approval-expired.example.com",
        Some("kira@example.com"),
        Some("Kira"),
        OperatingSystem::IOS,
        Liveness::Unknown,
        ConnectionPath::NoPath,
        &addresses13,
        &tags13,
        Some(MOCK_NOW - 604800),
        DeviceCapabilities { exit_node: false, exit_node_option: false, subnet_router: false, ssh: false, funnel: false, shared: false, expired: true, approved: false },
    ));
    out
}

/// The devices a demonstration refresh loads and when they were observed: a
/// failure, the devices seen four minutes ago, or the devices seen now.
pub fn load_devices(scenario: MockLoadScenario) -> (r: Result<(Vec<Device>, Timestamp), String>)
    ensures
        scenario == MockLoadScenario::Failure ==> (r matches Err(m) && m@
            == "mock refresh failed: fictional source timeout"@),
        scenario == MockLoadScenario::Stale ==> (r matches Ok((ds, at)) && is_fixture(ds@) && at == MOCK_NOW - 240),
        (scenario == MockLoadScenario::Initial || scenario == MockLoadScenario::Success) ==> (r matches Ok((ds, at))
            && is_fixture(ds@) && at == MOCK_NOW),
{
    match scenario {
        MockLoadScenario::Failure => Err("mock refresh failed: fictional source timeout".to_owned()),
        MockLoadScenario::Stale => Ok((devices(), MOCK_NOW - 240)),
        MockLoadScenario::Initial | MockLoadScenario::Success => Ok((devices(), MOCK_NOW)),
    }
}

} // verus!
