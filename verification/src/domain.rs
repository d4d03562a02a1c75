//! The data that the local client reports and that its operations produce.
use vstd::prelude::*;

verus! {

/// Seconds since the Unix epoch.
pub type Timestamp = u64;

#[derive(Debug, Clone, Copy, PartialEq, Eq, Structural)]
pub enum LocalFailureKind {
    ExecutableMissing,
    ExecutableDenied,
    UnsupportedClient,
    PermissionDenied,
    NeedsLogin,
    DaemonUnavailable,
    TimedOut,
    Cancelled,
    InvalidOutput,
    Transport,
}

/// A failure of a local operation, as shown to the operator.
#[derive(Debug, Clone, PartialEq, Eq)]
pub struct LocalFailure {
    pub kind: LocalFailureKind,
    pub operation: String,
    pub summary: String,
    pub detail: String,
    pub retryable: bool,
}

impl LocalFailure {
    pub fn new(
        kind: LocalFailureKind,
        operation: String,
        summary: String,
        detail: String,
        retryable: bool,
    ) -> (r: Self)
        ensures
            r.kind == kind,
            r.operation == operation,
            r.summary == summary,
            r.detail == detail,
            r.retryable == retryable,
    {
        LocalFailure { kind, operation, summary, detail, retryable }
    }
}

/// What the local client is doing, as far as Tale can tell.
#[derive(Debug, Clone, PartialEq, Eq)]
pub enum LocalState {
    Mock,
    ExecutableMissing,
    ExecutableDenied,
    UnsupportedClient { version: String, reason: String },
    DaemonUnavailable { detail: String },
    PermissionDenied { operation: String, detail: String },
    NeedsLogin { auth_url: Option<String> },
    Stopped,
    Running,
    Degraded { health_messages: Vec<String> },
}

/// Where the path to the `tailscale` executable came from.
#[derive(Debug, Clone, Copy, PartialEq, Eq, Structural)]
pub enum ExecutableSource {
    Cli,
    Environment,
    Config,
    Path,
}

/// The commands that the installed client advertised.
#[derive(Debug, Clone, Copy, PartialEq, Eq, Structural)]
pub struct LocalCapabilities {
    pub ping: bool,
    pub netcheck_json: bool,
    pub netcheck_json_line: bool,
    pub dns_status_json: bool,
    pub dns_query_json: bool,
    pub whois_json: bool,
    pub connect: bool,
    pub disconnect: bool,
    pub set: bool,
    pub accounts: bool,
    pub account_login: bool,
    pub account_logout: bool,
    pub account_remove: bool,
    pub syspolicy: bool,
    pub ssh: bool,
    pub nc: bool,
    pub serve: bool,
    pub funnel: bool,
    pub taildrop: bool,
    pub drive: bool,
    pub certificate: bool,
    pub metrics: bool,
    pub bugreport: bool,
}

/// A discovered `tailscale` executable and what it reported about itself.
#[derive(Debug, Clone, PartialEq, Eq)]
pub struct LocalExecutable {
    pub path: String,
    pub socket_path: Option<String>,
    pub source: ExecutableSource,
    pub version: String,
    pub daemon_version: Option<String>,
    pub build: Option<String>,
    pub capabilities: LocalCapabilities,
}

#[derive(Debug, Clone, PartialEq, Eq)]
pub enum OperatingSystem {
    Linux,
    MacOS,
    Windows,
    IOS,
    Android,
    Unknown(String),
}

/// The operating system that this build of Tale runs on.
#[derive(Debug, Clone, Copy, PartialEq, Eq, Structural)]
pub enum TargetOs {
    Linux,
    MacOS,
    Windows,
    OtherUnix,
}


/// The spec-level picture of a `LocalFailure`.
pub ghost struct LocalFailureView {
    pub kind: LocalFailureKind,
    pub operation: Seq<char>,
    pub summary: Seq<char>,
    pub detail: Seq<char>,
    pub retryable: bool,
}

impl View for LocalFailure {
    type V = LocalFailureView;

    open spec fn view(&self) -> LocalFailureView {
        LocalFailureView {
            kind: self.kind,
            operation: self.operation@,
            summary: self.summary@,
            detail: self.detail@,
            retryable: self.retryable,
        }
    }
}

/// The spec-level picture of a `LocalState`.
pub ghost enum LocalStateView {
    Mock,
    ExecutableMissing,
    ExecutableDenied,
    UnsupportedClient { version: Seq<char>, reason: Seq<char> },
    DaemonUnavailable { detail: Seq<char> },
    PermissionDenied { operation: Seq<char>, detail: Seq<char> },
    NeedsLogin { auth_url: Option<Seq<char>> },
    Stopped,
    Running,
    Degraded { health_messages: Seq<Seq<char>> },
}

pub open spec fn opt_view(o: Option<String>) -> Option<Seq<char>> {
    match o {
        Some(s) => Some(s@),
        None => None,
    }
}

impl View for LocalState {
    type V = LocalStateView;

    open spec fn view(&self) -> LocalStateView {
        match self {
            LocalState::Mock => LocalStateView::Mock,
            LocalState::ExecutableMissing => LocalStateView::ExecutableMissing,
            LocalState::ExecutableDenied => LocalStateView::ExecutableDenied,
            LocalState::UnsupportedClient { version, reason } => LocalStateView::UnsupportedClient {
                version: version@,
                reason: reason@,
            },
            LocalState::DaemonUnavailable { detail } => LocalStateView::DaemonUnavailable {
                detail: detail@,
            },
            LocalState::PermissionDenied { operation, detail } => LocalStateView::PermissionDenied {
                operation: operation@,
                detail: detail@,
            },
            LocalState::NeedsLogin { auth_url } => LocalStateView::NeedsLogin {
                auth_url: opt_view(*auth_url),
            },
            LocalState::Stopped => LocalStateView::Stopped,
            LocalState::Running => LocalStateView::Running,
            LocalState::Degraded { health_messages } => LocalStateView::Degraded {
                health_messages: health_messages@.map_values(|m: String| m@),
            },
        }
    }
}

/// The preference fields that a `tailscale set` call changes; `None` leaves a
/// field as it is.
#[derive(Debug, Clone, PartialEq, Eq, Default)]
pub struct PreferenceRequest {
    pub accept_dns: Option<bool>,
    pub accept_routes: Option<bool>,
    pub shields_up: Option<bool>,
    pub ssh: Option<bool>,
    pub automatic_update: Option<bool>,
    pub update_check: Option<bool>,
    pub report_posture: Option<bool>,
    pub hostname: Option<String>,
    pub nickname: Option<String>,
    pub web_client: Option<bool>,
}

impl PreferenceRequest {
    pub open spec fn is_empty_spec(&self) -> bool {
        self.accept_dns.is_none() && self.accept_routes.is_none() && self.shields_up.is_none()
            && self.ssh.is_none() && self.automatic_update.is_none() && self.update_check.is_none()
            && self.report_posture.is_none() && self.hostname.is_none() && self.nickname.is_none()
            && self.web_client.is_none()
    }

    /// No field is to change.
    pub fn is_empty(&self) -> (r: bool)
        ensures
            r == self.is_empty_spec(),
    {
        self.accept_dns.is_none() && self.accept_routes.is_none() && self.shields_up.is_none()
            && self.ssh.is_none() && self.automatic_update.is_none() && self.update_check.is_none()
            && self.report_posture.is_none() && self.hostname.is_none() && self.nickname.is_none()
            && self.web_client.is_none()
    }
}

/// Which exit node to use: none, a device (its ID and the name or address
/// that selects it), or whichever suits.
#[derive(Debug, Clone, PartialEq, Eq)]
pub enum ExitNodeSelection {
    Disabled,
    Device { device_id: String, target: String },
    AutoAny,
}

#[derive(Debug, Clone, PartialEq, Eq)]
pub struct ExitNodeRequest {
    pub selection: ExitNodeSelection,
    pub allow_lan_access: bool,
}


/// How a ping reached its peer.
#[derive(Debug, Clone, PartialEq, Eq)]
pub enum DiagnosticPath {
    Direct,
    Derp { region: Option<String> },
    PeerRelay { peer: Option<String> },
    Unknown,
}

pub ghost enum DiagnosticPathView {
    Direct,
    Derp { region: Option<Seq<char>> },
    PeerRelay { peer: Option<Seq<char>> },
    Unknown,
}

impl View for DiagnosticPath {
    type V = DiagnosticPathView;

    open spec fn view(&self) -> DiagnosticPathView {
        match self {
            DiagnosticPath::Direct => DiagnosticPathView::Direct,
            DiagnosticPath::Derp { region } => DiagnosticPathView::Derp { region: opt_view(*region) },
            DiagnosticPath::PeerRelay { peer } => DiagnosticPathView::PeerRelay { peer: opt_view(*peer) },
            DiagnosticPath::Unknown => DiagnosticPathView::Unknown,
        }
    }
}

/// One reply line of `tailscale ping`.
#[derive(Debug, Clone, PartialEq, Eq)]
pub struct PingSample {
    pub sequence: u64,
    pub observed_at: Timestamp,
    pub latency_ms: Option<u64>,
    pub path: DiagnosticPath,
    pub endpoint_or_region: Option<String>,
    pub raw_line: String,
}

/// One DERP region's latency as `tailscale netcheck` reports it.
#[derive(Debug, Clone, PartialEq, Eq)]
pub struct DerpLatency {
    pub region_code: String,
    pub region_name: Option<String>,
    pub latency_ms: Option<u64>,
}

pub ghost struct DerpLatencyView {
    pub region_code: Seq<char>,
    pub region_name: Option<Seq<char>>,
    pub latency_ms: Option<u64>,
}

impl View for DerpLatency {
    type V = DerpLatencyView;

    open spec fn view(&self) -> DerpLatencyView {
        DerpLatencyView {
            region_code: self.region_code@,
            region_name: opt_view(self.region_name),
            latency_ms: self.latency_ms,
        }
    }
}

/// What `tailscale netcheck` found out about the network.
#[derive(Debug, Clone, PartialEq, Eq)]
pub struct NetcheckObservation {
    pub udp: Option<bool>,
    pub ipv4: Option<bool>,
    pub ipv6: Option<bool>,
    pub mapping_varies_by_destination: Option<bool>,
    pub hairpinning: Option<bool>,
    pub port_mapping: Vec<String>,
    pub nearest_derp: Option<String>,
    pub derp_latency: Vec<DerpLatency>,
    pub sensitive_addresses: Vec<String>,
    pub observed_at: Option<Timestamp>,
}

/// What `tailscale dns status` reports. `split_routes` is sorted by suffix,
/// each suffix once.
#[derive(Debug, Clone, PartialEq, Eq)]
pub struct DnsStatus {
    pub forwarder_enabled: Option<bool>,
    pub magic_dns_enabled: Option<bool>,
    pub magic_dns_suffix: Option<String>,
    pub current_node_dns_name: Option<String>,
    pub resolvers: Vec<String>,
    pub split_routes: Vec<(String, Vec<String>)>,
    pub cert_domains: Vec<String>,
    pub observed_at: Timestamp,
}

/// One answer of `tailscale dns query`.
#[derive(Debug, Clone, PartialEq, Eq)]
pub struct DnsAnswer {
    pub value: String,
    pub record_type: Option<String>,
    pub ttl: Option<u64>,
    pub raw_detail: Option<String>,
}

pub ghost struct DnsAnswerView {
    pub value: Seq<char>,
    pub record_type: Option<Seq<char>>,
    pub ttl: Option<u64>,
    pub raw_detail: Option<Seq<char>>,
}

impl View for DnsAnswer {
    type V = DnsAnswerView;

    open spec fn view(&self) -> DnsAnswerView {
        DnsAnswerView {
            value: self.value@,
            record_type: opt_view(self.record_type),
            ttl: self.ttl,
            raw_detail: opt_view(self.raw_detail),
        }
    }
}

/// The result of `tailscale dns query`.
#[derive(Debug, Clone, PartialEq, Eq)]
pub struct DnsQueryResult {
    pub name: String,
    pub record_type: String,
    pub answers: Vec<DnsAnswer>,
    pub resolvers: Vec<String>,
    pub latency_ms: Option<u64>,
    pub result_class: String,
    pub observed_at: Timestamp,
    pub raw_detail: String,
}

/// What `tailscale whois` says about an address.
#[derive(Debug, Clone, PartialEq, Eq)]
pub struct WhoisResult {
    pub query: String,
    pub machine_id: Option<String>,
    pub machine_name: Option<String>,
    pub addresses: Vec<String>,
    pub tags: Vec<String>,
    pub user_identity: Option<String>,
    pub capabilities: Vec<String>,
    pub observed_at: Timestamp,
    pub raw_detail: String,
}

pub ghost enum OperatingSystemView {
    Linux,
    MacOS,
    Windows,
    IOS,
    Android,
    Unknown(Seq<char>),
}

impl View for OperatingSystem {
    type V = OperatingSystemView;

    open spec fn view(&self) -> OperatingSystemView {
        match self {
            OperatingSystem::Linux => OperatingSystemView::Linux,
            OperatingSystem::MacOS => OperatingSystemView::MacOS,
            OperatingSystem::Windows => OperatingSystemView::Windows,
            OperatingSystem::IOS => OperatingSystemView::IOS,
            OperatingSystem::Android => OperatingSystemView::Android,
            OperatingSystem::Unknown(s) => OperatingSystemView::Unknown(s@),
        }
    }
}

/// How traffic reaches a device.
#[derive(Debug, Clone, PartialEq, Eq)]
pub enum ConnectionPath {
    Direct { latency_ms: Option<u64> },
    Derp { region: String },
    PeerRelay { peer: String },
    Idle,
    NoPath,
    Unknown(String),
}

pub ghost enum ConnectionPathView {
    Direct { latency_ms: Option<u64> },
    Derp { region: Seq<char> },
    PeerRelay { peer: Seq<char> },
    Idle,
    NoPath,
    Unknown(Seq<char>),
}

impl View for ConnectionPath {
    type V = ConnectionPathView;

    open spec fn view(&self) -> ConnectionPathView {
        match self {
            ConnectionPath::Direct { latency_ms } => ConnectionPathView::Direct { latency_ms: *latency_ms },
            ConnectionPath::Derp { region } => ConnectionPathView::Derp { region: region@ },
            ConnectionPath::PeerRelay { peer } => ConnectionPathView::PeerRelay { peer: peer@ },
            ConnectionPath::Idle => ConnectionPathView::Idle,
            ConnectionPath::NoPath => ConnectionPathView::NoPath,
            ConnectionPath::Unknown(s) => ConnectionPathView::Unknown(s@),
        }
    }
}

/// Whether a device of the tailnet is reachable now.
#[derive(Debug, Clone, Copy, PartialEq, Eq, Structural)]
pub enum Liveness {
    Online,
    Offline,
    Unknown,
}

/// What a device of the tailnet may do or is.
#[derive(Debug, Clone, Copy, PartialEq, Eq, Structural)]
pub struct DeviceCapabilities {
    pub exit_node: bool,
    pub exit_node_option: bool,
    pub subnet_router: bool,
    pub ssh: bool,
    pub funnel: bool,
    pub shared: bool,
    pub expired: bool,
    pub approved: bool,
}

/// A device of the tailnet as the administration view lists it.
#[derive(Debug, Clone, PartialEq, Eq)]
pub struct Device {
    pub id: String,
    pub display_name: String,
    pub hostname: String,
    pub owner: Option<String>,
    pub owner_label: Option<String>,
    pub os: OperatingSystem,
    pub version: Option<String>,
    pub liveness: Liveness,
    pub path: ConnectionPath,
    pub addresses: Vec<String>,
    pub advertised_routes: Vec<String>,
    pub tags: Vec<String>,
    pub last_seen: Option<Timestamp>,
    pub created_at: Option<Timestamp>,
    pub rx_bytes: Option<u64>,
    pub tx_bytes: Option<u64>,
    pub capabilities: DeviceCapabilities,
}

/// A device as the local daemon reports it. `capabilities` is sorted by
/// name, each name once.
#[derive(Debug, Clone, PartialEq, Eq)]
pub struct LocalDevice {
    pub id: String,
    pub public_key: Option<String>,
    pub display_name: String,
    pub hostname: String,
    pub dns_name: Option<String>,
    pub os: OperatingSystem,
    pub version: Option<String>,
    pub owner_label: Option<String>,
    pub user_id: Option<String>,
    pub tags: Vec<String>,
    pub tailscale_ips: Vec<String>,
    pub advertised_routes: Vec<String>,
    pub current_endpoint: Option<String>,
    pub relay_region: Option<String>,
    pub path: ConnectionPath,
    pub online: Option<bool>,
    pub active: bool,
    pub rx_bytes: Option<u64>,
    pub tx_bytes: Option<u64>,
    pub created_at: Option<Timestamp>,
    pub last_seen: Option<Timestamp>,
    pub last_handshake: Option<Timestamp>,
    pub exit_node: bool,
    pub exit_node_option: bool,
    pub ssh_host_keys_present: bool,
    pub shared: bool,
    pub capabilities: Vec<(String, bool)>,
}

/// What the local daemon's status says about this machine and its peers.
#[derive(Debug, Clone, PartialEq, Eq)]
pub struct LocalSnapshot {
    pub observed_at: Timestamp,
    pub client_version: String,
    pub daemon_version: Option<String>,
    pub backend_state: LocalState,
    pub health_messages: Vec<String>,
    pub current_tailnet: Option<String>,
    pub magic_dns_suffix: Option<String>,
    pub cert_domains: Vec<String>,
    pub self_node: LocalDevice,
    pub peers: Vec<LocalDevice>,
}

} // verus!
