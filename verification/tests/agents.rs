use herdr_pet::agents::{
    classify_transition, AgentCache, AgentInfo, AgentState, AggregateState, TransitionKind,
};

fn agent(pane: &str, state: AgentState) -> AgentInfo {
    AgentInfo {
        session_id: "default".into(),
        workspace_id: "w1".into(),
        workspace_label: Some("host: project".into()),
        pane_id: pane.into(),
        agent: Some("codex".into()),
        title: None,
        state,
    }
}

#[test]
fn detects_foreground_and_background_turn_completion() {
    assert_eq!(
        classify_transition(AgentState::Working, AgentState::Idle),
        Some(TransitionKind::TurnCompleted)
    );
    assert_eq!(
        classify_transition(AgentState::Working, AgentState::Done),
        Some(TransitionKind::TurnCompletedBackground)
    );
}

#[test]
fn does_not_treat_snapshot_idle_as_completion() {
    let mut cache = AgentCache::default();
    cache.replace(vec![agent("p1", AgentState::Idle)]);
    assert_eq!(cache.aggregate(true), AggregateState::Idle);
}

#[test]
fn aggregate_priority_is_blocked_then_working_then_idle() {
    let mut cache = AgentCache::default();
    cache.replace(vec![
        agent("p1", AgentState::Idle),
        agent("p2", AgentState::Working),
    ]);
    assert_eq!(cache.aggregate(true), AggregateState::Working);
    cache.update(agent("p1", AgentState::Blocked));
    assert_eq!(cache.aggregate(true), AggregateState::NeedsAttention);
    assert_eq!(cache.aggregate(false), AggregateState::Offline);
}

#[test]
fn ignores_same_state_presentation_updates() {
    let mut cache = AgentCache::default();
    cache.replace(vec![agent("p1", AgentState::Working)]);
    let mut updated = agent("p1", AgentState::Working);
    updated.title = Some("new title".into());
    assert_eq!(cache.update(updated), None);
}

#[test]
fn quiet_aggregation_keeps_protective_states_but_hides_working() {
    let mut cache = AgentCache::default();
    cache.replace(vec![agent("p1", AgentState::Working)]);
    assert_eq!(cache.aggregate_quiet(true), AggregateState::Idle);
    cache.update(agent("p1", AgentState::Blocked));
    assert_eq!(cache.aggregate_quiet(true), AggregateState::NeedsAttention);
    assert_eq!(cache.aggregate_quiet(false), AggregateState::Offline);
}

#[test]
fn status_updates_keep_the_workspace_display_label() {
    let mut cache = AgentCache::default();
    cache.update(agent("p1", AgentState::Idle));
    let mut update = agent("p1", AgentState::Working);
    update.workspace_label = None;
    cache.update(update);
    assert_eq!(
        cache.list()[0].workspace_label.as_deref(),
        Some("host: project")
    );
}

#[test]
fn every_transition_pair_is_classified() {
    let states = [
        AgentState::Idle,
        AgentState::Working,
        AgentState::Blocked,
        AgentState::Done,
        AgentState::Unknown,
    ];
    for from in states {
        for to in states {
            let expected = if from == to {
                None
            } else if from == AgentState::Working && to == AgentState::Idle {
                Some(TransitionKind::TurnCompleted)
            } else if from == AgentState::Working && to == AgentState::Done {
                Some(TransitionKind::TurnCompletedBackground)
            } else if to == AgentState::Working {
                Some(TransitionKind::AgentStarted)
            } else if to == AgentState::Blocked {
                Some(TransitionKind::AttentionRequested)
            } else {
                None
            };
            assert_eq!(classify_transition(from, to), expected, "{from:?} -> {to:?}");
        }
    }
}

#[test]
fn empty_cache_sleeps_while_connected() {
    let cache = AgentCache::new();
    assert_eq!(cache.aggregate(true), AggregateState::Sleeping);
    assert_eq!(cache.aggregate_quiet(true), AggregateState::Sleeping);
    assert_eq!(cache.aggregate(false), AggregateState::Offline);
}

#[test]
fn first_sighting_reports_no_transition_and_later_ones_do() {
    let mut cache = AgentCache::new();
    assert_eq!(cache.update(agent("p1", AgentState::Working)), None);
    assert_eq!(
        cache.update(agent("p1", AgentState::Idle)),
        Some(TransitionKind::TurnCompleted)
    );
    assert_eq!(
        cache.update(agent("p1", AgentState::Blocked)),
        Some(TransitionKind::AttentionRequested)
    );
}

#[test]
fn replace_keeps_the_last_agent_for_a_key() {
    let mut cache = AgentCache::new();
    let mut second = agent("p1", AgentState::Blocked);
    second.title = Some("later".into());
    cache.replace(vec![agent("p1", AgentState::Idle), second]);
    let listed = cache.list();
    assert_eq!(listed.len(), 1);
    assert_eq!(listed[0].state, AgentState::Blocked);
    assert_eq!(listed[0].title.as_deref(), Some("later"));
}

#[test]
fn list_orders_by_pane_id() {
    let mut cache = AgentCache::new();
    cache.replace(vec![
        agent("w2:p1", AgentState::Idle),
        agent("w1:p3", AgentState::Idle),
        agent("w1:p10", AgentState::Idle),
    ]);
    let panes: Vec<String> = cache.list().into_iter().map(|a| a.pane_id).collect();
    assert_eq!(panes, ["w1:p10", "w1:p3", "w2:p1"]);
}

#[test]
fn remove_returns_the_stored_agent_once() {
    let mut cache = AgentCache::new();
    cache.update(agent("p1", AgentState::Working));
    let removed = cache.remove("default", "p1").unwrap();
    assert_eq!(removed.state, AgentState::Working);
    assert!(cache.remove("default", "p1").is_none());
    assert_eq!(cache.aggregate(true), AggregateState::Sleeping);
}

#[test]
fn sessions_keep_separate_entries_for_one_pane() {
    let mut cache = AgentCache::new();
    let mut other = agent("p1", AgentState::Blocked);
    other.session_id = "other".into();
    cache.update(agent("p1", AgentState::Idle));
    cache.update(other);
    assert_eq!(cache.list().len(), 2);
    assert!(cache.remove("other", "p1").is_some());
    assert_eq!(cache.aggregate(true), AggregateState::Idle);
}

#[test]
fn distinct_session_and_pane_pairs_are_distinct_agents() {
    let mut cache = AgentCache::default();
    let x = AgentInfo {
        session_id: "a:b".into(),
        workspace_id: "w".into(),
        workspace_label: None,
        pane_id: "c".into(),
        agent: None,
        title: None,
        state: AgentState::Idle,
    };
    let mut y = x.clone();
    y.session_id = "a".into();
    y.pane_id = "b:c".into();
    y.state = AgentState::Working;
    assert_eq!(cache.update(x.clone()), None);
    assert_eq!(cache.update(y.clone()), None);
    assert_eq!(cache.list().len(), 2);
    cache.replace(vec![x, y]);
    assert_eq!(cache.list().len(), 2);
}
