use herdr_pet::config::{DesktopConfig, HerdrConfig};
use herdr_pet::desktop::SettingsStep::{AlwaysOnTop, Autostart, ClickThrough, Save, Shortcut};
use herdr_pet::desktop::{
    linux_display_capabilities, menu_command, parse_runtime_self_test_report_path,
    position_is_visible_in, runtime_self_test_capabilities_pass, self_test_verdict, settings_change,
    click_through_toggle_rollback, find_monitor, settings_commit, settings_rollback, settings_steps,
    shortcut_replacement_needed, snap_to_edges, MenuCommand, MonitorBounds,
    RuntimeSelfTestCapabilities, SettingsChange,
};

fn monitor() -> MonitorBounds {
    MonitorBounds {
        id: Some("secondary".into()),
        x: 1_920,
        y: -200,
        width: 2_560,
        height: 1_440,
    }
}

#[test]
fn distinguishes_x11_wayland_and_headless_capabilities() {
    assert_eq!(
        linux_display_capabilities(true, true),
        ("x11-compatible", true, true)
    );
    assert_eq!(
        linux_display_capabilities(false, true),
        ("wayland", false, false)
    );
    assert_eq!(
        linux_display_capabilities(false, false),
        ("headless", false, false)
    );
}

#[test]
fn parses_runtime_self_test_report_path() {
    let parsed = parse_runtime_self_test_report_path(&vec![
        "herdr-pet".to_string(),
        "--runtime-self-test".to_string(),
        "reports/runtime.json".to_string(),
    ])
    .unwrap();
    assert_eq!(parsed, Some("reports/runtime.json".to_string()));
}

#[test]
fn rejects_runtime_self_test_without_report_path() {
    let error = parse_runtime_self_test_report_path(&vec![
        "herdr-pet".to_string(),
        "--runtime-self-test".to_string(),
    ])
    .unwrap_err();
    assert!(error.contains("requires a report path"));
}

#[test]
fn runtime_self_test_without_flag_or_with_empty_path() {
    assert_eq!(parse_runtime_self_test_report_path(&vec!["herdr-pet".to_string()]), Ok(None));
    assert!(parse_runtime_self_test_report_path(&vec!["--runtime-self-test".to_string(), String::new()])
        .unwrap_err()
        .contains("cannot be empty"));
}

#[test]
fn capabilities_must_match_the_backend() {
    let caps = |backend: &'static str, shortcut: bool, position: bool| RuntimeSelfTestCapabilities {
        display_backend: backend,
        global_shortcut_available: shortcut,
        absolute_position_available: position,
    };
    assert!(runtime_self_test_capabilities_pass(&caps("x11-compatible", true, true)));
    assert!(runtime_self_test_capabilities_pass(&caps("native", true, true)));
    assert!(!runtime_self_test_capabilities_pass(&caps("native", true, false)));
    assert!(runtime_self_test_capabilities_pass(&caps("wayland", false, false)));
    assert!(!runtime_self_test_capabilities_pass(&caps("wayland", true, false)));
    assert!(!runtime_self_test_capabilities_pass(&caps("headless", false, false)));
}

#[test]
fn visibility_requires_at_least_a_64_pixel_grab_area() {
    assert!(position_is_visible_in(320, 320, &vec![monitor()], 4_416, 0));
    assert!(!position_is_visible_in(320, 320, &vec![monitor()], 4_417, 0));
}

#[test]
fn snapping_uses_the_monitor_scale_at_each_edge() {
    let threshold = (16.0_f64 * 2.0).round() as i32;
    assert_eq!(snap_to_edges(320, 320, &monitor(), threshold, 4_145, 930), (4_160, 920));
    assert_eq!(snap_to_edges(320, 320, &monitor(), threshold, 2_100, 100), (2_100, 100));
}

#[test]
fn reads_tray_menu_commands() {
    assert_eq!(menu_command("show"), MenuCommand::ToggleOverlay);
    assert_eq!(menu_command("quit"), MenuCommand::Quit);
    assert_eq!(menu_command("avatar:built-in"), MenuCommand::BuiltInAvatar);
    assert_eq!(
        menu_command("avatar:abc"),
        MenuCommand::InstalledAvatar("abc".to_string())
    );
    assert_eq!(
        menu_command("avatar:avatar:abc"),
        MenuCommand::InstalledAvatar("abc".to_string())
    );
    assert_eq!(menu_command("unknown"), MenuCommand::Ignore);
}

#[test]
fn settings_changes_are_detected_field_by_field() {
    let herdr = HerdrConfig::default();
    let desktop = DesktopConfig::default();
    assert_eq!(
        settings_change(&herdr, &herdr.clone(), &desktop, &desktop.clone()),
        SettingsChange { reconnect_needed: false, autostart_changed: false, shortcut_changed: false }
    );
    let mut moved = herdr.clone();
    moved.observation.pane_ids.push("p1".into());
    let mut toggled = desktop.clone();
    toggled.auto_start = !toggled.auto_start;
    toggled.toggle_shortcut = "Alt+P".into();
    assert_eq!(
        settings_change(&herdr, &moved, &desktop, &toggled),
        SettingsChange { reconnect_needed: true, autostart_changed: true, shortcut_changed: true }
    );
    let mut session = herdr.clone();
    session.session = Some("work".into());
    assert!(settings_change(&herdr, &session, &desktop, &desktop).reconnect_needed);
}

#[test]
fn shortcuts_are_replaced_only_when_supported_and_changed() {
    assert!(shortcut_replacement_needed(true, "A", "B"));
    assert!(!shortcut_replacement_needed(true, "A", "A"));
    assert!(!shortcut_replacement_needed(false, "A", "B"));
}

#[test]
fn self_test_verdicts_report_the_first_failure() {
    assert_eq!(self_test_verdict(true, 3, 10, true, true, None, None), (true, None));
    assert_eq!(
        self_test_verdict(true, 3, 10, false, false, None, None),
        (false, Some("pet overlay window checks failed".to_string()))
    );
    assert_eq!(
        self_test_verdict(true, 3, 10, true, false, None, None),
        (false, Some("display capability checks failed".to_string()))
    );
    assert_eq!(
        self_test_verdict(true, 3, 10, false, true, Some("boom".into()), Some("no window".into())),
        (false, Some("boom".to_string()))
    );
    assert_eq!(
        self_test_verdict(true, 3, 10, false, true, None, Some("no window".into())),
        (false, Some("no window".to_string()))
    );
    assert_eq!(self_test_verdict(true, 0, 10, true, true, None, None), (false, None));
    assert_eq!(self_test_verdict(false, 3, 10, true, true, None, None), (false, None));
}

#[test]
fn settings_steps_and_their_rollback_follow_the_application_order() {
    let all = SettingsChange { reconnect_needed: true, autostart_changed: true, shortcut_changed: true };
    assert_eq!(settings_steps(&all, true), vec![Shortcut, AlwaysOnTop, ClickThrough, Autostart, Save]);
    assert_eq!(settings_steps(&all, false), vec![Shortcut, Autostart, Save]);
    let none = SettingsChange { reconnect_needed: false, autostart_changed: false, shortcut_changed: false };
    assert_eq!(settings_steps(&none, false), vec![Save]);

    assert_eq!(settings_rollback(&all, true, Shortcut), vec![]);
    assert_eq!(settings_rollback(&all, true, AlwaysOnTop), vec![Shortcut]);
    assert_eq!(settings_rollback(&all, true, ClickThrough), vec![AlwaysOnTop, Shortcut]);
    assert_eq!(settings_rollback(&all, true, Autostart), vec![AlwaysOnTop, ClickThrough, Shortcut]);
    assert_eq!(
        settings_rollback(&all, true, Save),
        vec![Autostart, AlwaysOnTop, ClickThrough, Shortcut]
    );
    assert_eq!(settings_rollback(&none, false, Save), vec![]);
    assert_eq!(settings_rollback(&none, true, ClickThrough), vec![AlwaysOnTop]);

    let ok = settings_commit(&all, true);
    assert!(ok.store && ok.announce && ok.reconnect);
    let failed = settings_commit(&all, false);
    assert!(!failed.store && !failed.announce && !failed.reconnect);
    assert!(!settings_commit(&none, true).reconnect);

    assert_eq!(click_through_toggle_rollback(Save), vec![ClickThrough]);
    assert_eq!(click_through_toggle_rollback(ClickThrough), vec![]);
}

#[test]
fn saved_monitors_are_found_by_name() {
    let monitors = vec![
        MonitorBounds { id: None, x: 0, y: 0, width: 10, height: 10 },
        MonitorBounds { id: Some("DP-1".into()), x: 0, y: 0, width: 10, height: 10 },
        MonitorBounds { id: Some("DP-1".into()), x: 5, y: 0, width: 10, height: 10 },
    ];
    assert_eq!(find_monitor(&monitors, "DP-1"), Some(1));
    assert_eq!(find_monitor(&monitors, "HDMI-1"), None);
}
