use herdr_pet::agents::{AgentInfo, AgentState, TransitionKind};
use herdr_pet::config::EventRules;
use herdr_pet::pet::{render_bubble, IntentFactory};

fn agent() -> AgentInfo {
    AgentInfo {
        session_id: "default".into(),
        workspace_id: "w1".into(),
        workspace_label: Some("host: project".into()),
        pane_id: "p1".into(),
        agent: Some("Codex".into()),
        title: None,
        state: AgentState::Done,
    }
}

#[test]
fn creates_a_templated_completion_intent() {
    let mut factory = IntentFactory::default();
    let intent = factory
        .create_from_transition(TransitionKind::TurnCompleted, &agent(), &EventRules::default())
        .unwrap();
    assert_eq!(intent.kind, "turn_completed");
    assert_eq!(intent.bubble.as_deref(), Some("Codex 完成了工作"));
    assert_eq!(intent.agent_names, ["Codex"]);
}

#[test]
fn expands_all_supported_bubble_variables() {
    assert_eq!(
        render_bubble("{agent} · {workspace} · {count}", "Codex", "pet", 2),
        "Codex · pet · 2"
    );
}

#[test]
fn honors_disabled_rules() {
    let mut rules = EventRules::default();
    rules.turn_completed.enabled = false;
    assert!(IntentFactory::default()
        .create_from_transition(TransitionKind::TurnCompleted, &agent(), &rules)
        .is_none());
}

#[test]
fn creates_a_reconnect_waking_intent() {
    let intent = IntentFactory::default()
        .reconnected(&EventRules::default())
        .unwrap();
    assert_eq!(intent.kind, "reconnected");
    assert_eq!(intent.animation, "waking");
}

#[test]
fn lifecycle_intents_use_templates_cooldowns_and_enabled_flags() {
    let mut factory = IntentFactory::default();
    let mut rules = EventRules::default();
    rules.agent_exited.bubble = "{agent} 离开 {workspace}".into();
    let first = factory.agent_exited(&agent(), &rules).unwrap();
    assert_eq!(first.bubble.as_deref(), Some("Codex 离开 w1"));
    assert!(factory.agent_exited(&agent(), &rules).is_none());

    rules.agent_detected.enabled = false;
    assert!(factory.agent_detected("p2", &rules).is_none());
    rules.reconnected.enabled = false;
    assert!(factory.reconnected(&rules).is_none());
}

#[test]
fn cooldown_does_not_drop_a_different_agent() {
    let mut factory = IntentFactory::default();
    let rules = EventRules::default();
    let first = agent();
    let mut second = agent();
    second.pane_id = "p2".into();
    second.agent = Some("Codex".into());

    assert!(factory
        .create_from_transition(TransitionKind::TurnCompleted, &first, &rules)
        .is_some());
    assert!(factory
        .create_from_transition(TransitionKind::TurnCompleted, &second, &rules)
        .is_some());
    assert!(factory
        .create_from_transition(TransitionKind::TurnCompleted, &first, &rules)
        .is_none());
}

#[test]
fn cooldown_expires_after_the_rule_window() {
    let mut factory = IntentFactory::new();
    let rules = EventRules::default();
    let at = 5_000_000_000u128;
    let first = factory
        .create_from_transition_at(TransitionKind::AttentionRequested, &agent(), &rules, at)
        .unwrap();
    assert_eq!(first.id, 1);
    assert_eq!(first.priority, 100);
    assert_eq!(first.duration_ms, 3_000);
    assert!(factory
        .create_from_transition_at(TransitionKind::AttentionRequested, &agent(), &rules, at + 999_999_999)
        .is_none());
    let again = factory
        .create_from_transition_at(TransitionKind::AttentionRequested, &agent(), &rules, at + 1_000_000_000)
        .unwrap();
    assert_eq!(again.id, 2);
    assert_eq!(factory.last_intent_id(), 2);
}

#[test]
fn background_completion_uses_the_completion_rule() {
    let mut factory = IntentFactory::new();
    let intent = factory
        .create_from_transition_at(TransitionKind::TurnCompletedBackground, &agent(), &EventRules::default(), 0)
        .unwrap();
    assert_eq!(intent.kind, "turn_completed_background");
    assert_eq!(intent.animation, "celebrate");
    assert_eq!(intent.priority, 70);
    assert_eq!(intent.bubble_template.as_deref(), Some("{agent} 完成了工作"));
    assert_eq!(intent.workspace_ids, ["w1"]);
    assert_eq!(intent.count, 1);
}

#[test]
fn unnamed_agents_are_called_agent() {
    let mut factory = IntentFactory::new();
    let mut unnamed = agent();
    unnamed.agent = None;
    let intent = factory
        .create_from_transition_at(TransitionKind::AgentStarted, &unnamed, &EventRules::default(), 0)
        .unwrap();
    assert_eq!(intent.bubble.as_deref(), Some("Agent 开始工作"));
    assert_eq!(intent.agent_names, ["Agent"]);
    assert_eq!(intent.priority, 50);
}

#[test]
fn reconnect_intent_has_no_bubble_and_no_agent() {
    let mut factory = IntentFactory::new();
    let intent = factory.reconnected_at(&EventRules::default(), 0).unwrap();
    assert!(intent.bubble.is_none());
    assert!(intent.bubble_template.is_none());
    assert!(intent.agent_names.is_empty());
    assert!(intent.workspace_ids.is_empty());
    assert_eq!(intent.priority, 40);
    assert!(factory.reconnected_at(&EventRules::default(), 10).is_none());
}

#[test]
fn detected_agents_have_no_workspace() {
    let mut factory = IntentFactory::new();
    let intent = factory.agent_detected_at("p9", &EventRules::default(), 0).unwrap();
    assert_eq!(intent.bubble.as_deref(), Some("Agent 已连接"));
    assert_eq!(intent.agent_names, ["Agent"]);
    assert!(intent.workspace_ids.is_empty());
    assert_eq!(intent.kind, "agent_detected");
    assert_eq!(intent.priority, 60);
    let mut rules = EventRules::default();
    rules.agent_detected.enabled = false;
    assert!(IntentFactory::new().agent_detected_at("p2", &rules, 0).is_none());
}

#[test]
fn bubble_replaces_every_occurrence_and_leaves_unknown_fields() {
    assert_eq!(
        render_bubble("{agent}{agent} {other} {count}", "A", "w", 12),
        "AA {other} 12"
    );
    assert_eq!(render_bubble("{agen", "A", "w", 0), "{agen");
}
