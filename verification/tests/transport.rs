use herdr_pet::config::HerdrConfig;
use herdr_pet::discovery::{discover_with, herdr_config_dir_from};
use herdr_pet::transport::{Endpoint, EndpointTarget};

#[test]
fn formats_wsl_endpoint_without_exposing_a_windows_pipe() {
    let endpoint = Endpoint::wsl(Some("Ubuntu-24.04".into()), None, Some("work".into()));
    assert_eq!(
        endpoint.display(),
        "wsl://Ubuntu-24.04/~/.config/herdr/sessions/work/herdr.sock"
    );
    assert_eq!(endpoint.session_id(), "work");
}

#[test]
fn explicit_socket_path_wins() {
    let endpoint = discover_with(
        &HerdrConfig {
            auto_discover: true,
            session: Some("work".into()),
            socket_path: Some("/tmp/custom-herdr.sock".into()),
            ..HerdrConfig::default()
        },
        Some("/tmp/from-env.sock".into()),
        None,
        "/home/user/.config/herdr",
    );
    assert_eq!(endpoint.path(), "/tmp/custom-herdr.sock");
    assert_eq!(endpoint.session_id(), "work");
}

#[test]
fn wsl_mode_keeps_linux_discovery_inside_the_selected_distribution() {
    let mut config = HerdrConfig::default();
    config.wsl.enabled = true;
    config.wsl.distribution = Some("Ubuntu".into());
    config.session = Some("work".into());
    let endpoint = discover_with(&config, None, None, "/home/user/.config/herdr");
    assert_eq!(
        endpoint.display(),
        "wsl://Ubuntu/~/.config/herdr/sessions/work/herdr.sock"
    );
}

#[test]
fn default_wsl_endpoint_names_the_default_distribution() {
    let endpoint = Endpoint::wsl(None, None, None);
    assert_eq!(endpoint.display(), "wsl://default/~/.config/herdr/herdr.sock");
    assert_eq!(endpoint.session_id(), "default");
    assert_eq!(endpoint.path(), "wsl://default/~/.config/herdr/herdr.sock");
    assert!(matches!(endpoint.target(), EndpointTarget::Wsl { .. }));
}

#[test]
fn environment_socket_comes_before_the_default_one() {
    let endpoint = discover_with(&HerdrConfig::default(), Some("/run/herdr.sock".into()), None, "/h");
    assert_eq!(endpoint.display(), "/run/herdr.sock");
    assert_eq!(endpoint.session_id(), "env");
}

#[test]
fn named_sessions_use_their_own_socket() {
    let endpoint = discover_with(&HerdrConfig::default(), None, Some("work".into()), "/h/.config/herdr");
    assert_eq!(endpoint.display(), "/h/.config/herdr/sessions/work/herdr.sock");
    assert_eq!(endpoint.session_id(), "work");
    let plain = discover_with(&HerdrConfig::default(), None, None, "/h/.config/herdr");
    assert_eq!(plain.display(), "/h/.config/herdr/herdr.sock");
    assert_eq!(plain.session_id(), "default");
}

#[test]
fn herdr_directory_prefers_xdg_config_home() {
    assert_eq!(herdr_config_dir_from(Some("/x".into()), None, "/home/u"), "/x/herdr");
    assert_eq!(herdr_config_dir_from(None, None, "/home/u"), "/home/u/.config/herdr");
}
