use tale::domain::{ExitNodeRequest, ExitNodeSelection, PreferenceRequest};
use tale::local::preferences::{
    verify_exit_node, verify_preference_request, ObservedFlag, ObservedPreferences, ObservedText,
};

fn flag(value: Option<bool>) -> ObservedFlag {
    ObservedFlag { value, editable: true }
}

fn observed() -> ObservedPreferences {
    ObservedPreferences {
        accept_dns: flag(Some(true)),
        accept_routes: flag(Some(false)),
        shields_up: flag(Some(false)),
        ssh: ObservedFlag { value: Some(false), editable: false },
        automatic_update: flag(None),
        update_check: flag(Some(true)),
        report_posture: flag(Some(false)),
        web_client: flag(Some(false)),
        hostname: ObservedText { value: Some("laptop".to_owned()), editable: true },
        nickname: ObservedText { value: None, editable: false },
        auto_exit_node: Some(false),
        exit_node_id: Some(String::new()),
        exit_node_ip: Some("100.64.0.9".to_owned()),
        exit_node_allow_lan_access: Some(true),
    }
}

fn request() -> PreferenceRequest {
    PreferenceRequest {
        accept_dns: None,
        accept_routes: None,
        shields_up: None,
        ssh: None,
        automatic_update: None,
        update_check: None,
        report_posture: None,
        hostname: None,
        nickname: None,
        web_client: None,
    }
}

#[test]
fn preference_changes_are_seen_only_when_every_setting_took() {
    let current = observed();
    assert_eq!(verify_preference_request(&current, &request()), Ok(true));
    let mut r = request();
    r.accept_dns = Some(true);
    r.hostname = Some("laptop".to_owned());
    assert_eq!(verify_preference_request(&current, &r), Ok(true));
    r.accept_routes = Some(true);
    assert_eq!(verify_preference_request(&current, &r), Ok(false));
    let mut r = request();
    r.ssh = Some(false);
    assert_eq!(
        verify_preference_request(&current, &r),
        Err("Tailscale SSH is unknown or not editable".to_owned())
    );
    let mut r = request();
    r.automatic_update = Some(true);
    assert_eq!(verify_preference_request(&current, &r), Ok(false));
    let mut r = request();
    r.hostname = Some("desk".to_owned());
    assert_eq!(verify_preference_request(&current, &r), Ok(false));
    let mut r = request();
    r.nickname = Some("x".to_owned());
    assert_eq!(
        verify_preference_request(&current, &r),
        Err("nickname is unknown or not editable".to_owned())
    );
}

#[test]
fn exit_node_changes_are_seen_by_id_then_address() {
    let mut current = observed();
    let device = ExitNodeRequest {
        selection: ExitNodeSelection::Device { device_id: "n1".to_owned(), target: "100.64.0.9".to_owned() },
        allow_lan_access: true,
    };
    assert_eq!(verify_exit_node(&current, &device), Ok(true));
    current.exit_node_id = Some("n2".to_owned());
    assert_eq!(verify_exit_node(&current, &device), Ok(false));
    current.exit_node_id = Some("n1".to_owned());
    assert_eq!(verify_exit_node(&current, &device), Ok(true));
    let off = ExitNodeRequest { selection: ExitNodeSelection::Disabled, allow_lan_access: true };
    assert_eq!(verify_exit_node(&current, &off), Ok(false));
    current.exit_node_id = Some(String::new());
    current.exit_node_ip = Some(String::new());
    current.exit_node_allow_lan_access = Some(false);
    assert_eq!(verify_exit_node(&current, &off), Ok(true));
    let auto = ExitNodeRequest { selection: ExitNodeSelection::AutoAny, allow_lan_access: false };
    assert_eq!(verify_exit_node(&current, &auto), Ok(false));
    current.auto_exit_node = Some(true);
    assert_eq!(verify_exit_node(&current, &auto), Ok(true));
    current.exit_node_ip = None;
    assert_eq!(
        verify_exit_node(&current, &auto),
        Err("exit-node preferences were not fully returned".to_owned())
    );
}
