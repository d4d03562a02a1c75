use tale::local::certificates::{
    certificate_command, verify_certificate_outputs, CertificateRequest, FileFacts,
};
use tale::paths::{
    join, lexical_absolute, paths_equal, resolve_paths, with_config_file, PathEnvironment,
    PathError, Paths, Platform,
};

fn request(cert: &str, key: &str, min: Option<&str>) -> CertificateRequest {
    CertificateRequest {
        domain: "host.example.ts.net".to_owned(),
        certificate_path: cert.to_owned(),
        key_path: key.to_owned(),
        min_validity: min.map(str::to_owned),
    }
}

#[test]
fn certificate_command_names_both_files() {
    let command = certificate_command("tailscale", 9000, &request("/tmp/c.pem", "/tmp/k.pem", Some("24h")));
    assert!(command.is_ok());
    if let Ok(command) = command {
        assert_eq!(
            command.args,
            vec![
                "cert",
                "--cert-file=/tmp/c.pem",
                "--key-file=/tmp/k.pem",
                "--min-validity=24h",
                "host.example.ts.net"
            ]
        );
        assert_eq!(command.timeout_ms, Some(9000));
    }
}

#[test]
fn certificate_requests_are_checked() {
    let same = certificate_command("tailscale", 1, &request("/tmp/a//c.pem", "/tmp/a/./c.pem", None));
    assert_eq!(same.unwrap_err().detail, "certificate and key paths must be different");
    let dash = certificate_command("tailscale", 1, &request("-", "/tmp/k.pem", None));
    assert_eq!(dash.unwrap_err().detail, "certificate and key paths cannot be '-'");
    let validity = certificate_command("tailscale", 1, &request("/c", "/k", Some("")));
    assert_eq!(validity.unwrap_err().detail, "minimum validity is invalid");
    let mut bad = request("/c", "/k", None);
    bad.domain = "bad\u{7}".to_owned();
    assert_eq!(certificate_command("tailscale", 1, &bad).unwrap_err().detail, "certificate domain is invalid");
}

#[test]
fn certificate_outputs_must_be_non_empty_files() {
    let req = request("/c", "/k", None);
    let ok = verify_certificate_outputs(&req, 0, Some(FileFacts { is_file: true, len: 10 }), Some(FileFacts { is_file: true, len: 20 }));
    assert_eq!(ok.as_ref().map(|v| (v.certificate_size, v.key_size)), Ok((10, 20)));
    let missing = verify_certificate_outputs(&req, 0, None, Some(FileFacts { is_file: true, len: 20 }));
    assert_eq!(missing.unwrap_err().detail, "certificate output was not created");
    let empty = verify_certificate_outputs(&req, 0, Some(FileFacts { is_file: true, len: 1 }), Some(FileFacts { is_file: true, len: 0 }));
    assert_eq!(empty.unwrap_err().detail, "key output is not a non-empty regular file");
}

#[test]
fn path_equality_follows_components() {
    assert!(paths_equal("/a//b/", "/a/./b"));
    assert!(!paths_equal("./a", "a"));
    assert!(!paths_equal("/a", "a"));
}

#[test]
fn lexical_absolute_folds_dots_without_the_file_system() {
    assert_eq!(lexical_absolute("../x/./y", "/home/me/work"), "/home/me/x/y");
    assert_eq!(lexical_absolute("/../../etc//tale/", "/ignored"), "/etc/tale");
    assert_eq!(join("/home/me", "tale/config.toml"), "/home/me/tale/config.toml");
    assert_eq!(join("/home/me/", "/etc"), "/etc");
}

fn unix(home: Option<&str>, xdg_config: Option<&str>) -> PathEnvironment {
    PathEnvironment {
        platform: Platform::Unix,
        current_dir: "/work".to_owned(),
        xdg_config_home: xdg_config.map(str::to_owned),
        home: home.map(str::to_owned),
        xdg_state_home: None,
        xdg_cache_home: None,
        appdata: None,
        localappdata: None,
    }
}

#[test]
fn unix_paths_follow_xdg_and_home() {
    let paths = resolve_paths(&unix(Some("/home/me"), Some("cfg")));
    assert_eq!(
        paths,
        Ok(Paths {
            config_file: "/work/cfg/tale/config.toml".to_owned(),
            credentials_file: "/work/cfg/tale/credentials.toml".to_owned(),
            state_dir: "/home/me/.local/state/tale".to_owned(),
            cache_dir: "/home/me/.cache/tale".to_owned(),
        })
    );
    assert_eq!(resolve_paths(&unix(None, None)), Err(PathError::MissingEnvironment("HOME")));
}

#[test]
fn windows_paths_need_appdata() {
    let mut env = unix(None, None);
    env.platform = Platform::Windows;
    assert_eq!(resolve_paths(&env), Err(PathError::MissingEnvironment("APPDATA")));
    env.appdata = Some("/roaming".to_owned());
    assert_eq!(resolve_paths(&env), Err(PathError::MissingEnvironment("LOCALAPPDATA")));
    env.localappdata = Some("/local".to_owned());
    let paths = resolve_paths(&env).unwrap();
    assert_eq!(paths.cache_dir, "/local/tale/cache");
    assert_eq!(paths.credentials_file, "/roaming/tale/credentials.toml");
    assert_eq!(
        PathError::MissingEnvironment("HOME").message(),
        "required environment path HOME is not set"
    );
}

#[test]
fn credentials_move_with_the_configuration() {
    let paths = resolve_paths(&unix(Some("/home/me"), None)).unwrap();
    let moved = with_config_file(paths.clone(), "scratch/../throwaway/tale.toml", "/tmp");
    assert_eq!(moved.config_file, "/tmp/throwaway/tale.toml");
    assert_eq!(moved.credentials_file, "/tmp/throwaway/credentials.toml");
    assert_eq!(moved.state_dir, paths.state_dir);
    let root = with_config_file(paths, "/", "/tmp");
    assert_eq!(root.credentials_file, "credentials.toml");
}

#[test]
fn lexical_paths_stay_normal_when_made_absolute_again() {
    let once = lexical_absolute("a/./b/../c", "/x");
    assert_eq!(once, "/x/a/c");
    assert_eq!(lexical_absolute(&once, "/elsewhere"), once);
    assert_eq!(lexical_absolute("../../..", "/x"), "/");
    assert_eq!(lexical_absolute("/", "/y"), "/");
}
