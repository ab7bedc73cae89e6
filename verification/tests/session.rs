use herdr_pet::agents::{AgentCache, AgentState, AggregateState};
use herdr_pet::config::{EventRules, ObservationConfig, ObservationMode};
use herdr_pet::pet::IntentFactory;
use herdr_pet::protocol::{
    AgentRecord, AgentStatusData, EventMessage, PaneLifecycleData, PaneRecord, PingResult,
    Snapshot, WorkspaceRecord,
};
use herdr_pet::session::{
    backoff_step, check_pong, check_snapshot_matches, handle_event, next_retry, snapshot_agents,
    snapshot_pane_ids, BackoffEvent, RuntimeRefresh,
};

fn status(pane: &str, state: AgentState) -> EventMessage {
    EventMessage::AgentStatus(AgentStatusData {
        pane_id: pane.into(),
        workspace_id: "w1".into(),
        agent_status: state,
        agent: Some("codex".into()),
        display_agent: None,
        title: None,
    })
}

fn snapshot() -> Snapshot {
    Snapshot {
        version: "0.8.0".into(),
        protocol: 20,
        panes: vec![PaneRecord { id: "w1:p1".into() }],
        agents: vec![
            AgentRecord {
                workspace_id: "w1".into(),
                pane_id: "w1:p1".into(),
                agent: Some("codex".into()),
                display_agent: None,
                title: None,
                agent_status: AgentState::Working,
            },
            AgentRecord {
                workspace_id: "w2".into(),
                pane_id: "w2:p1".into(),
                agent: None,
                display_agent: None,
                title: None,
                agent_status: AgentState::Idle,
            },
        ],
        workspaces: vec![WorkspaceRecord { workspace_id: "w1".into(), label: "host: project".into() }],
    }
}

#[test]
fn working_then_done_celebrates_in_the_background() {
    let mut cache = AgentCache::new();
    let mut intents = IntentFactory::new();
    let rules = EventRules::default();
    let observation = ObservationConfig::default();
    let first = handle_event(&mut cache, &mut intents, &observation, &rules, "default", status("w1:p1", AgentState::Working), 0);
    assert_eq!(first.kind, "pane.agent_status_changed");
    assert!(first.intent.is_none());
    assert_eq!(first.refresh, RuntimeRefresh::Queued);
    let second = handle_event(&mut cache, &mut intents, &observation, &rules, "default", status("w1:p1", AgentState::Done), 0);
    let completion = second.intent.expect("working -> done should create an intent");
    assert_eq!(completion.kind, "turn_completed_background");
    assert_eq!(completion.animation, "celebrate");
    assert_eq!(completion.agent_names, ["codex"]);
    assert!(!second.resubscribe);
}

#[test]
fn quiet_mode_keeps_completions_but_not_starts() {
    let mut cache = AgentCache::new();
    let mut intents = IntentFactory::new();
    let rules = EventRules::default();
    let observation = ObservationConfig { mode: ObservationMode::Quiet, ..ObservationConfig::default() };
    handle_event(&mut cache, &mut intents, &observation, &rules, "s", status("p", AgentState::Idle), 0);
    let started = handle_event(&mut cache, &mut intents, &observation, &rules, "s", status("p", AgentState::Working), 0);
    assert!(started.intent.is_none());
    let done = handle_event(&mut cache, &mut intents, &observation, &rules, "s", status("p", AgentState::Idle), 0);
    assert_eq!(done.intent.unwrap().kind, "turn_completed");
}

#[test]
fn unobserved_agents_leave_the_cache() {
    let mut cache = AgentCache::new();
    let mut intents = IntentFactory::new();
    let rules = EventRules::default();
    let everything = ObservationConfig::default();
    handle_event(&mut cache, &mut intents, &everything, &rules, "s", status("p", AgentState::Working), 0);
    let other = ObservationConfig {
        mode: ObservationMode::CurrentWorkspace,
        current_workspace_id: Some("w9".into()),
        ..ObservationConfig::default()
    };
    let outcome = handle_event(&mut cache, &mut intents, &other, &rules, "s", status("p", AgentState::Blocked), 0);
    assert!(outcome.intent.is_none());
    assert_eq!(cache.aggregate(true), AggregateState::Sleeping);
}

#[test]
fn closed_panes_say_goodbye_and_resubscribe() {
    let mut cache = AgentCache::new();
    let mut intents = IntentFactory::new();
    let rules = EventRules::default();
    let observation = ObservationConfig::default();
    handle_event(&mut cache, &mut intents, &observation, &rules, "s", status("p", AgentState::Working), 0);
    let closed = handle_event(
        &mut cache,
        &mut intents,
        &observation,
        &rules,
        "s",
        EventMessage::PaneClosed(PaneLifecycleData { pane_id: "p".into() }),
        0,
    );
    assert_eq!(closed.kind, "pane.closed");
    assert_eq!(closed.intent.unwrap().kind, "agent_exited");
    assert_eq!(closed.refresh, RuntimeRefresh::Immediate);
    assert!(closed.resubscribe);
    let created = handle_event(
        &mut cache,
        &mut intents,
        &observation,
        &rules,
        "s",
        EventMessage::PaneCreated(PaneLifecycleData { pane_id: "q".into() }),
        0,
    );
    assert_eq!(created.intent.unwrap().kind, "agent_detected");
    assert!(created.resubscribe);
    let other = handle_event(&mut cache, &mut intents, &observation, &rules, "s", EventMessage::Other, 0);
    assert_eq!(other.kind, "other");
    assert!(!other.resubscribe);
}

#[test]
fn snapshot_agents_are_labelled_and_filtered() {
    let everything = ObservationConfig::default();
    let agents = snapshot_agents(&snapshot(), "default", &everything);
    assert_eq!(agents.len(), 2);
    assert_eq!(agents[0].workspace_label.as_deref(), Some("host: project"));
    assert_eq!(agents[1].workspace_label, None);
    let selected = ObservationConfig {
        mode: ObservationMode::Selected,
        pane_ids: vec!["w2:p1".into()],
        ..ObservationConfig::default()
    };
    let agents = snapshot_agents(&snapshot(), "default", &selected);
    assert_eq!(agents.len(), 1);
    assert_eq!(agents[0].pane_id, "w2:p1");
    assert_eq!(snapshot_pane_ids(&snapshot()), ["w1:p1"]);
}

#[test]
fn handshake_checks_kind_protocol_and_version() {
    let pong = PingResult { kind: "pong".into(), version: "0.8.0".into(), protocol: 20 };
    assert!(check_pong(&pong).is_ok());
    let odd = PingResult { kind: "ping".into(), version: "0.8.0".into(), protocol: 20 };
    assert_eq!(check_pong(&odd).unwrap_err(), "unexpected Herdr ping response: ping");
    assert!(check_snapshot_matches(&pong, &snapshot()).is_ok());
    let mut newer = snapshot();
    newer.protocol = 21;
    assert_eq!(
        check_snapshot_matches(&pong, &newer).unwrap_err(),
        "Herdr protocol changed during connection (20 -> 21)"
    );
    let mut upgraded = snapshot();
    upgraded.version = "0.9.0".into();
    assert_eq!(
        check_snapshot_matches(&pong, &upgraded).unwrap_err(),
        "Herdr version changed during connection (0.8.0 -> 0.9.0)"
    );
}

#[test]
fn reconnection_backs_off_up_to_ten_seconds() {
    assert_eq!(next_retry(0), (250, 1));
    assert_eq!(next_retry(1), (500, 2));
    assert_eq!(next_retry(4), (5_000, 5));
    assert_eq!(next_retry(5), (10_000, 5));
    assert_eq!(next_retry(99), (10_000, 5));
}

#[test]
fn backoff_restarts_after_a_session_or_a_reconnect_request() {
    let mut attempt = 0;
    let mut delays = Vec::new();
    for _ in 0..8 {
        let (next, delay) = backoff_step(attempt, BackoffEvent::Failed);
        attempt = next;
        delays.push(delay.unwrap());
    }
    assert_eq!(delays, [250, 500, 1_000, 2_000, 5_000, 10_000, 10_000, 10_000]);
    assert_eq!(backoff_step(attempt, BackoffEvent::SessionEnded), (0, None));
    assert_eq!(backoff_step(attempt, BackoffEvent::ReconnectRequested), (0, None));
    assert_eq!(backoff_step(0, BackoffEvent::Failed), (1, Some(250)));
}
