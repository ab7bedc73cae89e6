use herdr_pet::agents::AgentState;
use herdr_pet::protocol::{
    subscribe_request, AgentRecord, AgentStatusData, ApiError, EventMessage, PaneRecord,
    PingResponse, PingResult, Snapshot, SnapshotResponse, SnapshotResult, SubscribeResponse,
    WorkspaceRecord,
};
use serde_json::Value;

fn text(value: &Value) -> String {
    value.as_str().unwrap().to_owned()
}

fn optional_text(value: &Value, key: &str) -> Option<String> {
    value.get(key).and_then(Value::as_str).map(str::to_owned)
}

fn api_error(value: &Value) -> Option<ApiError> {
    value.get("error").map(|error| ApiError { message: text(&error["message"]) })
}

fn agent_state(value: &Value) -> AgentState {
    match value.as_str().unwrap() {
        "idle" => AgentState::Idle,
        "working" => AgentState::Working,
        "blocked" => AgentState::Blocked,
        "done" => AgentState::Done,
        _ => AgentState::Unknown,
    }
}

fn ping_response(source: &str) -> PingResponse {
    let value: Value = serde_json::from_str(source).unwrap();
    PingResponse {
        result: value.get("result").map(|result| PingResult {
            kind: text(&result["type"]),
            version: text(&result["version"]),
            protocol: result["protocol"].as_u64().unwrap() as u32,
        }),
        error: api_error(&value),
    }
}

fn list(value: &Value, key: &str) -> Vec<Value> {
    value.get(key).and_then(Value::as_array).cloned().unwrap_or_default()
}

fn snapshot_response(source: &str) -> SnapshotResponse {
    let value: Value = serde_json::from_str(source).unwrap();
    SnapshotResponse {
        result: value.get("result").map(|result| {
            let snapshot = &result["snapshot"];
            SnapshotResult {
                snapshot: Snapshot {
                    version: text(&snapshot["version"]),
                    protocol: snapshot["protocol"].as_u64().unwrap() as u32,
                    panes: list(snapshot, "panes")
                        .iter()
                        .map(|pane| PaneRecord {
                            id: text(pane.get("id").unwrap_or(&pane["pane_id"])),
                        })
                        .collect(),
                    agents: list(snapshot, "agents")
                        .iter()
                        .map(|agent| AgentRecord {
                            workspace_id: text(&agent["workspace_id"]),
                            pane_id: text(&agent["pane_id"]),
                            agent: optional_text(agent, "agent"),
                            display_agent: optional_text(agent, "display_agent"),
                            title: optional_text(agent, "title"),
                            agent_status: agent_state(&agent["agent_status"]),
                        })
                        .collect(),
                    workspaces: list(snapshot, "workspaces")
                        .iter()
                        .map(|workspace| WorkspaceRecord {
                            workspace_id: text(&workspace["workspace_id"]),
                            label: text(&workspace["label"]),
                        })
                        .collect(),
                },
            }
        }),
        error: api_error(&value),
    }
}

fn event_message(source: &str) -> EventMessage {
    let value: Value = serde_json::from_str(source).unwrap();
    let data = &value["data"];
    match value["event"].as_str().unwrap() {
        "pane.agent_status_changed" => EventMessage::AgentStatus(AgentStatusData {
            pane_id: text(&data["pane_id"]),
            workspace_id: text(&data["workspace_id"]),
            agent_status: agent_state(&data["agent_status"]),
            agent: optional_text(data, "agent"),
            display_agent: optional_text(data, "display_agent"),
            title: optional_text(data, "title"),
        }),
        _ => EventMessage::Other,
    }
}

#[test]
fn parses_ping_metadata() {
    let response = ping_response(
        r#"{"id":"ping_1","result":{"type":"pong","version":"0.8.0","protocol":20}}"#,
    );
    let pong = response.into_result().unwrap();
    assert_eq!(pong.kind, "pong");
    assert_eq!(pong.protocol, 20);
}

#[test]
fn parses_realistic_snapshot_shape() {
    let response = snapshot_response(r#"{
      "id":"snapshot_1",
      "result":{"type":"session_snapshot","snapshot":{
        "version":"0.8.0","protocol":20,"panes":[{"pane_id":"w1:p1"}],
        "workspaces":[{"workspace_id":"w1","label":"host: project"}],
        "agents":[{"terminal_id":"t1","workspace_id":"w1","tab_id":"tab1","pane_id":"w1:p1","agent":"codex","agent_status":"working","focused":true,"revision":1}]
      }}
    }"#);
    let snapshot = response.into_result().unwrap().snapshot;
    assert_eq!(snapshot.panes[0].id, "w1:p1");
    assert_eq!(snapshot.workspaces[0].label, "host: project");
    assert_eq!(snapshot.agents[0].agent_status, AgentState::Working);
}

#[test]
fn status_event_keeps_the_cached_workspace_label() {
    let event = event_message(r#"{
      "event":"pane.agent_status_changed",
      "data":{"pane_id":"w1:p2","workspace_id":"w1","agent_status":"working","display_agent":"grok","title":"Waiting for response"}
    }"#);
    let EventMessage::AgentStatus(status) = event else {
        panic!("expected an agent status event");
    };
    let agent = status.into_agent_info("default", Some("rtx6000: vulseek-dev".into()));
    assert_eq!(agent.workspace_label.as_deref(), Some("rtx6000: vulseek-dev"));
    assert_eq!(agent.agent.as_deref(), Some("grok"));
    assert_eq!(agent.title.as_deref(), Some("Waiting for response"));
}

#[test]
fn preserves_server_error_messages() {
    let response = snapshot_response(
        r#"{"id":"snapshot_1","error":{"code":"incompatible_protocol","message":"upgrade required"}}"#,
    );
    assert_eq!(response.into_result().unwrap_err(), "upgrade required");
}

#[test]
fn subscribes_to_each_existing_pane_and_topology_events() {
    let request = subscribe_request(&vec!["w1:p1".into(), "w1:p2".into()]);
    let value: Value = serde_json::from_str(&request).unwrap();
    let subscriptions = value["params"]["subscriptions"].as_array().unwrap();
    assert_eq!(subscriptions.len(), 6);
    assert!(subscriptions.iter().any(|item| item["pane_id"] == "w1:p2"));
}

#[test]
fn parses_agent_status_subscription_event() {
    let event = event_message(r#"{
      "event":"pane.agent_status_changed",
      "data":{"pane_id":"w1:p1","workspace_id":"w1","agent_status":"done","agent":"codex","state_labels":{}}
    }"#);
    assert!(
        matches!(event, EventMessage::AgentStatus(data) if data.agent_status == AgentState::Done)
    );
}

#[test]
fn ping_result_is_returned_when_there_is_no_error() {
    let response = PingResponse {
        result: Some(PingResult { kind: "pong".into(), version: "0.8.0".into(), protocol: 20 }),
        error: None,
    };
    let pong = response.into_result().unwrap();
    assert_eq!(pong.kind, "pong");
    assert_eq!(pong.protocol, 20);
}

#[test]
fn server_errors_win_over_results() {
    let response = SnapshotResponse {
        result: None,
        error: Some(ApiError { message: "upgrade required".into() }),
    };
    assert_eq!(response.into_result().unwrap_err(), "upgrade required");
    let empty = PingResponse { result: None, error: None };
    assert_eq!(empty.into_result().unwrap_err(), "missing ping result");
}

#[test]
fn subscription_needs_a_result() {
    assert!(SubscribeResponse { has_result: true, error: None }.ensure_ok().is_ok());
    assert_eq!(
        SubscribeResponse { has_result: false, error: None }.ensure_ok().unwrap_err(),
        "missing subscription result"
    );
    assert_eq!(
        SubscribeResponse { has_result: true, error: Some(ApiError { message: "no".into() }) }
            .ensure_ok()
            .unwrap_err(),
        "no"
    );
}

#[test]
fn display_agent_names_win() {
    let status = AgentStatusData {
        pane_id: "w1:p2".into(),
        workspace_id: "w1".into(),
        agent_status: AgentState::Working,
        agent: Some("codex".into()),
        display_agent: Some("grok".into()),
        title: Some("Waiting for response".into()),
    };
    let agent = status.into_agent_info("default", Some("rtx6000: vulseek-dev".into()));
    assert_eq!(agent.workspace_label.as_deref(), Some("rtx6000: vulseek-dev"));
    assert_eq!(agent.agent.as_deref(), Some("grok"));
    assert_eq!(agent.title.as_deref(), Some("Waiting for response"));

    let record = AgentRecord {
        workspace_id: "w1".into(),
        pane_id: "w1:p1".into(),
        agent: Some("codex".into()),
        display_agent: None,
        title: None,
        agent_status: AgentState::Done,
    };
    let agent = record.into_agent_info("s", None);
    assert_eq!(agent.session_id, "s");
    assert_eq!(agent.agent.as_deref(), Some("codex"));
    assert_eq!(agent.state, AgentState::Done);
}

#[test]
fn subscribe_requests_list_every_pane_with_escaped_ids() {
    assert_eq!(
        subscribe_request(&vec!["w1:p1".into(), "odd\"id".into()]),
        r#"{"id":"subscribe_1","method":"events.subscribe","params":{"subscriptions":[{"type":"pane.created"},{"type":"pane.closed"},{"type":"pane.exited"},{"type":"pane.agent_detected"},{"pane_id":"w1:p1","type":"pane.agent_status_changed"},{"pane_id":"odd\"id","type":"pane.agent_status_changed"}]}}"#
    );
    let empty = subscribe_request(&Vec::new());
    let parsed: serde_json::Value = serde_json::from_str(&empty).unwrap();
    assert_eq!(parsed["params"]["subscriptions"].as_array().unwrap().len(), 4);
}

#[test]
fn subscribe_requests_escape_controls_like_serde_json() {
    let request = subscribe_request(&vec!["a\nb\u{1}\\".into()]);
    assert!(request.contains(r#"{"pane_id":"a\nb\u0001\\","type":"pane.agent_status_changed"}"#));
    let value: Value = serde_json::from_str(&request).unwrap();
    assert_eq!(value["params"]["subscriptions"][4]["pane_id"], "a\nb\u{1}\\");
}
