use herdr_pet::config::{
    accept_schema_version, normalize_ids, settings_schema_version, normalize_optional_text, normalized_fps, DesktopConfig,
    EventRule, EventRules, HerdrConfig, ObservationConfig, ObservationMode, SchedulerConfig,
    StateAnimations, CURRENT_SCHEMA_VERSION,
};

#[test]
fn observation_scope_matches_workspace_and_pane_selections() {
    let mut observation = ObservationConfig {
        mode: ObservationMode::Selected,
        workspace_ids: vec!["workspace-a".into()],
        pane_ids: vec!["pane-b".into()],
        ..ObservationConfig::default()
    };
    assert!(observation.includes("workspace-a", "pane-x"));
    assert!(observation.includes("workspace-x", "pane-b"));
    assert!(!observation.includes("workspace-x", "pane-x"));

    observation.mode = ObservationMode::CurrentWorkspace;
    observation.current_workspace_id = Some("workspace-c".into());
    assert!(observation.includes("workspace-c", "pane-x"));
    assert!(!observation.includes("workspace-a", "pane-x"));
}

#[test]
fn normalizes_wsl_connection_fields() {
    let mut herdr = HerdrConfig::default();
    herdr.wsl.enabled = true;
    herdr.wsl.distribution = Some("  Ubuntu\n  ".into());
    herdr.socket_path = Some("  ~/.config/herdr/herdr.sock  ".into());
    herdr.normalize();
    assert_eq!(herdr.wsl.distribution.as_deref(), Some("Ubuntu"));
    assert_eq!(
        herdr.socket_path.as_deref(),
        Some("~/.config/herdr/herdr.sock")
    );
}

#[test]
fn normalizes_unicode_shortcuts_without_splitting_a_character() {
    let mut desktop = DesktopConfig::default();
    desktop.toggle_shortcut = format!("  {}  ", "键".repeat(80));
    desktop.normalize();
    assert_eq!(desktop.toggle_shortcut.chars().count(), 64);
    assert!(desktop.toggle_shortcut.chars().all(|character| character == '键'));
}

#[test]
fn rejects_only_newer_schema_versions() {
    assert_eq!(accept_schema_version(None), Ok(1));
    assert_eq!(accept_schema_version(Some(CURRENT_SCHEMA_VERSION as u64)), Ok(4));
    assert_eq!(
        accept_schema_version(Some(999)),
        Err("unsupported config schema version 999".to_string())
    );
}

#[test]
fn inside_whitespace_and_controls_are_handled() {
    assert_eq!(normalize_optional_text(Some("  a\u{7}b  ".into()), 128).as_deref(), Some("ab"));
    assert_eq!(normalize_optional_text(Some(" \t\n ".into()), 128), None);
    assert_eq!(normalize_optional_text(Some("abcdef".into()), 3).as_deref(), Some("abc"));
    assert_eq!(normalize_optional_text(None, 3), None);
}

#[test]
fn event_rules_are_clamped_and_cut() {
    let mut rule = EventRule::default();
    rule.duration_ms = 1;
    rule.cooldown_ms = 90_000;
    rule.animation = String::new();
    rule.bubble = "x".repeat(200);
    rule.normalize();
    assert_eq!(rule.duration_ms, 100);
    assert_eq!(rule.cooldown_ms, 60_000);
    assert_eq!(rule.animation, "idle");
    assert_eq!(rule.bubble.len(), 120);

    let mut long = EventRule::default();
    long.duration_ms = 40_000;
    long.normalize();
    assert_eq!(long.duration_ms, 30_000);
}

#[test]
fn default_rules_match_the_shipped_settings() {
    let rules = EventRules::default();
    assert_eq!(rules.turn_completed.duration_ms, 2_200);
    assert_eq!(rules.agent_started.cooldown_ms, 1_000);
    assert_eq!(rules.attention_requested.bubble, "{agent} 需要你的关注");
    assert!(rules.reconnected.bubble.is_empty());
}

#[test]
fn scheduler_and_fps_are_brought_into_range() {
    let mut scheduler = SchedulerConfig::default();
    assert_eq!(scheduler.max_queue, 8);
    scheduler.max_queue = 0;
    scheduler.completion_merge_ms = 50_000;
    scheduler.event_ttl_ms = 10;
    scheduler.normalize();
    assert_eq!(scheduler.max_queue, 1);
    assert_eq!(scheduler.completion_merge_ms, 10_000);
    assert_eq!(scheduler.event_ttl_ms, 1_000);
    assert_eq!(normalized_fps(44), 60);
    assert_eq!(normalized_fps(30), 30);
    assert_eq!(normalized_fps(0), 30);
}

#[test]
fn ids_are_sorted_deduplicated_and_bounded() {
    let mut ids: Vec<String> = vec!["b".into(), "".into(), "a".into(), "b".into()];
    normalize_ids(&mut ids);
    assert_eq!(ids, ["a", "b"]);

    let mut many: Vec<String> = (0..300).map(|i| format!("{i:03}")).collect();
    normalize_ids(&mut many);
    assert_eq!(many.len(), 256);
    assert_eq!(many[0], "000");
    assert_eq!(many[255], "255");

    let mut long = vec!["x".repeat(200)];
    normalize_ids(&mut long);
    assert_eq!(long[0].len(), 128);
}

#[test]
fn empty_animation_names_fall_back_to_idle() {
    let mut animations = StateAnimations::default();
    animations.working = String::new();
    animations.offline = "o".repeat(70);
    animations.normalize();
    assert_eq!(animations.working, "idle");
    assert_eq!(animations.offline.len(), 64);
    assert_eq!(animations.needs_attention, "surprised");
}

#[test]
fn empty_shortcut_falls_back_to_the_default() {
    let mut desktop = DesktopConfig::default();
    desktop.toggle_shortcut = "   ".into();
    desktop.normalize();
    assert_eq!(desktop.toggle_shortcut, "CmdOrCtrl+Shift+H");
}

#[test]
fn empty_current_workspace_is_dropped() {
    let mut observation = ObservationConfig::default();
    observation.current_workspace_id = Some(String::new());
    observation.normalize();
    assert!(observation.current_workspace_id.is_none());
    assert!(!observation.quiet());
    observation.mode = ObservationMode::Quiet;
    assert!(observation.quiet());
    assert!(observation.includes("any", "pane"));
}

#[test]
fn normalizing_rules_twice_changes_nothing_more() {
    let mut rule = EventRule {
        enabled: false,
        animation: "".into(),
        bubble: "é".repeat(70),
        duration_ms: 5,
        cooldown_ms: 90_000,
    };
    rule.normalize();
    let once = rule.clone();
    rule.normalize();
    assert_eq!(rule, once);
    assert_eq!(once.animation, "idle");
    assert_eq!(once.bubble.len(), 120);
    assert_eq!(once.duration_ms, 100);
    assert_eq!(once.cooldown_ms, 60_000);

    let mut animations = StateAnimations::default();
    animations.working = "w".repeat(100);
    animations.normalize();
    let once = animations.clone();
    animations.normalize();
    assert_eq!(animations, once);
    assert_eq!(once.working.len(), 64);

    let mut scheduler = SchedulerConfig {
        max_queue: 0,
        completion_merge_ms: 20_000,
        event_ttl_ms: 5_000,
    };
    scheduler.normalize();
    let once = scheduler.clone();
    scheduler.normalize();
    assert_eq!(scheduler, once);
    assert_eq!(
        (once.max_queue, once.completion_merge_ms, once.event_ttl_ms),
        (1, 10_000, 5_000)
    );
}

#[test]
fn normalizing_id_lists_twice_changes_nothing_more() {
    let mut ids: Vec<String> = vec![
        "b".into(),
        "".into(),
        "a".into(),
        "b".into(),
        "é".repeat(100),
    ];
    for n in 0..300 {
        ids.push(format!("id-{n:03}"));
    }
    normalize_ids(&mut ids);
    assert_eq!(ids.len(), 256);
    assert_eq!(ids[0], "a");
    assert_eq!(ids[1], "b");
    let once = ids.clone();
    normalize_ids(&mut ids);
    assert_eq!(ids, once);
}

#[test]
fn rejects_unknown_future_schema() {
    let source = br#"{"schemaVersion": 999}"#;
    let value: serde_json::Value = serde_json::from_slice(source).unwrap();
    let found = value.get("schemaVersion").and_then(serde_json::Value::as_u64);
    assert!(accept_schema_version(found).unwrap_err().contains("unsupported"));
}

#[test]
fn normalizes_user_controlled_numeric_values() {
    assert_eq!(normalized_fps(44), 60);
    let mut turn_completed = EventRules::default().turn_completed;
    turn_completed.duration_ms = 1;
    turn_completed.normalize();
    assert_eq!(turn_completed.duration_ms, 100);
    let mut scheduler = SchedulerConfig::default();
    scheduler.normalize();
    assert_eq!(scheduler.max_queue, 8);
}

#[test]
fn unicode_whitespace_and_controls_are_trimmed() {
    let mut herdr = HerdrConfig::default();
    herdr.wsl.distribution = Some("\u{3000}Ubuntu\u{a0}\u{85}".into());
    herdr.session = Some("\u{2003}work\u{9f}\u{7f}".into());
    herdr.normalize();
    assert_eq!(herdr.wsl.distribution.as_deref(), Some("Ubuntu"));
    assert_eq!(herdr.session.as_deref(), Some("work"));
}

#[test]
fn settings_text_is_checked_for_its_schema_version() {
    assert_eq!(settings_schema_version(r#"{"schemaVersion": 3}"#), Ok(3));
    assert_eq!(settings_schema_version("{}"), Ok(1));
    assert_eq!(settings_schema_version(r#"{"schemaVersion": "x"}"#), Ok(1));
    assert_eq!(
        settings_schema_version(r#"{"schemaVersion": 999}"#),
        Err("unsupported config schema version 999".to_string())
    );
    assert!(settings_schema_version("{").unwrap_err().contains("EOF"));
}
