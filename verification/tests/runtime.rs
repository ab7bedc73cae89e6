use herdr_pet::agents::{AgentCache, AgentInfo, AgentState, AggregateState};
use herdr_pet::config::{HerdrConfig, ObservationMode};
use herdr_pet::runtime::{
    diagnostic_connection, diagnostic_preferences, diagnostic_runtime, shown_aggregate,
    ConnectionState, ConnectionStatus, RuntimeMetrics,
};

#[test]
fn connection_status_moves_through_its_states() {
    let mut status = ConnectionStatus::default();
    assert_eq!(status.state, ConnectionState::Disconnected);
    status.mark_connecting("/tmp/herdr.sock".into());
    assert_eq!(status.state, ConnectionState::Connecting);
    status.mark_connected("0.8.0".into(), 20);
    assert!(status.is_connected());
    assert_eq!(status.protocol, Some(20));
    status.mark_disconnected("gone".into(), 500);
    assert_eq!(status.last_error.as_deref(), Some("gone"));
    assert_eq!(status.retry_in_ms, Some(500));
    assert_eq!(status.version.as_deref(), Some("0.8.0"));
}

#[test]
fn metrics_record_events_and_cut_errors() {
    let mut metrics = RuntimeMetrics::new(7);
    metrics.count_reconnect();
    metrics.record_event_at("pane.created", 9);
    metrics.report_avatar_runtime_error(Some("e".repeat(600)));
    assert_eq!(metrics.reconnect_count, 1);
    assert_eq!(metrics.last_event_kind.as_deref(), Some("pane.created"));
    assert_eq!(metrics.last_event_at_ms, Some(9));
    assert_eq!(metrics.avatar_runtime_error.as_ref().unwrap().len(), 500);
    metrics.report_avatar_runtime_error(None);
    assert!(metrics.avatar_runtime_error.is_none());
}

#[test]
fn quiet_mode_shows_work_as_idle() {
    let mut cache = AgentCache::new();
    cache.update(AgentInfo {
        session_id: "s".into(),
        workspace_id: "w".into(),
        workspace_label: None,
        pane_id: "p".into(),
        agent: None,
        title: None,
        state: AgentState::Working,
    });
    assert_eq!(shown_aggregate(&cache, false, true), AggregateState::Working);
    assert_eq!(shown_aggregate(&cache, true, true), AggregateState::Idle);
}

#[test]
fn metrics_take_their_times_from_the_clock() {
    let mut metrics = RuntimeMetrics::start();
    assert!(metrics.started_at_ms > 0);
    assert_eq!(metrics.reconnect_count, 0);
    metrics.record_event("agent.status_changed");
    assert_eq!(metrics.last_event_kind.as_deref(), Some("agent.status_changed"));
    assert!(metrics.last_event_at_ms.unwrap() >= metrics.started_at_ms);
}

#[test]
fn diagnostics_keep_only_whether_there_were_errors() {
    let mut status = ConnectionStatus::default();
    status.mark_connecting("/home/me/.config/herdr/herdr.sock".into());
    status.mark_connected("0.8.0".into(), 20);
    status.mark_disconnected("secret path failed".into(), 250);
    let connection = diagnostic_connection(&status);
    assert_eq!(connection.state, ConnectionState::Disconnected);
    assert_eq!(connection.version.as_deref(), Some("0.8.0"));
    assert_eq!(connection.protocol, Some(20));
    assert!(connection.has_error);

    let mut metrics = RuntimeMetrics::new(5);
    metrics.record_event_at("pane.closed", 7);
    metrics.report_avatar_runtime_error(Some("boom".into()));
    let runtime = diagnostic_runtime(&metrics);
    assert_eq!(runtime.started_at_ms, 5);
    assert_eq!(runtime.last_event_kind.as_deref(), Some("pane.closed"));
    assert!(runtime.avatar_runtime_has_error);

    let mut herdr = HerdrConfig::default();
    herdr.wsl.enabled = true;
    herdr.socket_path = Some("/private".into());
    let preferences = diagnostic_preferences(&herdr, &Some("abc".into()), 60, true);
    assert_eq!(preferences.observation_mode, ObservationMode::All);
    assert!(preferences.wsl_mode && preferences.custom_avatar && preferences.paused);
    assert_eq!(preferences.fps, 60);
    assert!(!diagnostic_preferences(&herdr, &None, 30, false).custom_avatar);
}
