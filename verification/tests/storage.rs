use herdr_pet::avatar::{inspect, AvatarProjectInspection};
use herdr_pet::storage::{
    check_avatar_choice, check_installed, check_removable, check_selected_file, index_path_at,
    inspect_file_contents, installation_index, installation_path_at, menu_entry, new_installation, select_in,
    valid_installation_id, AvatarIndex, AvatarInstallation, INDEX_VERSION,
};

const PROJECT: &str = r#"{
  "version": 2,
  "expressions": [{"id": "neutral"}],
  "sequences": [{"name": "Idle", "builtIn": true, "id": "idle", "steps": [1]}],
  "library": {"avatars": [
    {"id": "strobi", "name": "Strobi"},
    {"id": "other", "name": "Other"}
  ]}
}"#;

fn inspection() -> AvatarProjectInspection {
    inspect(PROJECT).unwrap()
}

fn installation(id: &str, at: u64) -> AvatarInstallation {
    let mut summary = inspection();
    summary.content_hash = id.into();
    AvatarInstallation {
        id: id.into(),
        content_hash: id.into(),
        imported_at_ms: at,
        importer_version: 1,
        selected_avatar_id: "strobi".into(),
        summary,
    }
}

fn ids(index: &AvatarIndex) -> Vec<String> {
    index.installations.iter().map(|i| i.id.clone()).collect()
}

#[test]
fn installation_ids_are_lowercase_sha256_digests() {
    let good = "a".repeat(64);
    assert!(valid_installation_id(&good));
    assert!(valid_installation_id(&inspection().content_hash));
    assert!(!valid_installation_id(&"A".repeat(64)));
    assert!(!valid_installation_id(&"a".repeat(63)));
    assert!(!valid_installation_id("../../escape"));
    assert!(!valid_installation_id(&format!("{}é", "a".repeat(63))));
}

#[test]
fn path_escapes_are_refused() {
    assert_eq!(
        installation_path_at("/data/avatars", "../../escape").unwrap_err(),
        "invalid avatar installation id"
    );
    let id = "0".repeat(64);
    assert_eq!(
        installation_path_at("/data/avatars", &id).unwrap(),
        format!("/data/avatars/{id}")
    );
    assert_eq!(index_path_at("/data/avatars"), "/data/avatars/index.json");
}

#[test]
fn new_installations_are_stored_under_their_hash() {
    let summary = inspection();
    let hash = summary.content_hash.clone();
    let made = new_installation(summary.clone(), "other", 42).unwrap();
    assert_eq!(made.id, hash);
    assert_eq!(made.content_hash, hash);
    assert_eq!(made.imported_at_ms, 42);
    assert_eq!(made.importer_version, 1);
    assert_eq!(made.selected_avatar_id, "other");
    assert_eq!(
        new_installation(summary, "ghost", 1).unwrap_err(),
        "avatar ghost does not exist in project"
    );
}

#[test]
fn selecting_needs_an_avatar_of_the_project() {
    let mut made = installation(&"b".repeat(64), 5);
    select_in(&mut made, "other").unwrap();
    assert_eq!(made.selected_avatar_id, "other");
    assert_eq!(
        select_in(&mut made, "ghost").unwrap_err(),
        "avatar ghost does not exist in installation"
    );
    assert_eq!(made.selected_avatar_id, "other");
}

#[test]
fn installing_deduplicates_and_keeps_newest_first() {
    let a = "a".repeat(64);
    let b = "b".repeat(64);
    let c = "c".repeat(64);
    let mut index = AvatarIndex::default();
    assert_eq!(index.version, INDEX_VERSION);
    index.record(installation(&a, 10));
    index.record(installation(&b, 30));
    index.record(installation(&c, 20));
    assert_eq!(ids(&index), vec![b.clone(), c.clone(), a.clone()]);
    index.record(installation(&a, 40));
    assert_eq!(ids(&index), vec![a.clone(), b.clone(), c.clone()]);
    index.record(installation(&a, 40));
    assert_eq!(index.installations.len(), 3);
    index.forget(&b);
    assert_eq!(ids(&index), vec![a.clone(), c.clone()]);
    index.forget(&b);
    assert_eq!(ids(&index), vec![a, c]);
}

#[test]
fn equally_new_installations_keep_their_order() {
    let list = vec![
        installation(&"1".repeat(64), 5),
        installation(&"2".repeat(64), 9),
        installation(&"3".repeat(64), 5),
        installation(&"4".repeat(64), 9),
    ];
    let index = AvatarIndex::from_scan(list);
    assert_eq!(
        ids(&index),
        vec!["2".repeat(64), "4".repeat(64), "1".repeat(64), "3".repeat(64)]
    );
}

#[test]
fn replacing_an_entry_needs_it_listed() {
    let a = "a".repeat(64);
    let mut index = AvatarIndex::default();
    index.record(installation(&a, 10));
    let mut chosen = installation(&a, 10);
    chosen.selected_avatar_id = "other".into();
    index.replace_entry(chosen).unwrap();
    assert_eq!(index.installations[0].selected_avatar_id, "other");
    assert_eq!(
        index.replace_entry(installation(&"f".repeat(64), 1)).unwrap_err(),
        "avatar installation is missing from index"
    );
    assert_eq!(index.installations.len(), 1);
}

#[test]
fn only_the_current_index_version_is_used() {
    assert!(AvatarIndex::usable(None).is_none());
    let old = AvatarIndex { version: 0, installations: Vec::new() };
    assert!(AvatarIndex::usable(Some(old)).is_none());
    assert!(AvatarIndex::usable(Some(AvatarIndex::default())).is_some());
}

#[test]
fn installed_projects_are_checked_against_their_storage_path() {
    let summary = inspection();
    let id = summary.content_hash.clone();
    let made = new_installation(summary, "strobi", 3).unwrap();
    let ok = check_installed(&id, made.clone(), PROJECT.into()).unwrap();
    assert_eq!(ok.installation, made);
    assert_eq!(ok.source, PROJECT);

    let other = "d".repeat(64);
    assert_eq!(
        check_installed(&other, made.clone(), PROJECT.into()).unwrap_err(),
        "installed Avatar metadata does not match its storage path"
    );

    let tampered = PROJECT.replace("Strobi", "Strobo");
    assert_eq!(
        check_installed(&id, made.clone(), tampered.clone()).unwrap_err(),
        "installed Avatar Studio project failed integrity validation"
    );
    assert!(check_installed(&id, made, "{}".into()).is_err());
}

#[test]
fn selected_files_are_checked_before_reading() {
    assert_eq!(
        check_selected_file(false, 10).unwrap_err(),
        "selected Avatar Studio project is not a file"
    );
    assert_eq!(
        check_selected_file(true, 5 * 1024 * 1024 + 1).unwrap_err(),
        "Avatar Studio project exceeds 5242880 bytes"
    );
    assert!(check_selected_file(true, 5 * 1024 * 1024).is_ok());
}

#[test]
fn file_inspections_keep_the_source_and_name() {
    let named = inspect_file_contents(PROJECT.into(), Some("my-avatar.json".into())).unwrap();
    assert_eq!(named.file_name, "my-avatar.json");
    assert_eq!(named.source, PROJECT);
    assert_eq!(named.inspection.version, 2);
    let unnamed = inspect_file_contents(PROJECT.into(), None).unwrap();
    assert_eq!(unnamed.file_name, "avatar-project.json");
    assert!(inspect_file_contents("{}".into(), None).is_err());
}

#[test]
fn tray_entries_name_the_chosen_avatar() {
    let mut made = installation(&"e".repeat(64), 1);
    let display = made.summary.display_name.clone();
    let (id, label) = menu_entry(&made);
    assert_eq!(id, format!("avatar:{}", "e".repeat(64)));
    assert_eq!(label, format!("{display} · Strobi"));
    made.selected_avatar_id = "gone".into();
    assert_eq!(menu_entry(&made).1, format!("{display} · Avatar"));
}

#[test]
fn avatar_choices_name_both_or_neither() {
    assert_eq!(check_avatar_choice(&Some("i".into()), &Some("a".into())), Ok(true));
    assert_eq!(check_avatar_choice(&None, &None), Ok(false));
    assert_eq!(
        check_avatar_choice(&Some("i".into()), &None).unwrap_err(),
        "installationId and avatarId must both be set or both be null"
    );
    assert!(check_avatar_choice(&None, &Some("a".into())).is_err());
}

#[test]
fn the_active_installation_cannot_be_removed() {
    assert_eq!(
        check_removable(&Some("x".into()), "x").unwrap_err(),
        "cannot remove the active avatar installation"
    );
    assert!(check_removable(&Some("x".into()), "y").is_ok());
    assert!(check_removable(&None, "y").is_ok());
}

#[test]
fn installations_are_found_by_id() {
    let list = vec![
        installation(&"1".repeat(64), 5),
        installation(&"2".repeat(64), 9),
    ];
    assert_eq!(installation_index(&list, &"2".repeat(64)), Ok(1));
    assert_eq!(
        installation_index(&list, "built-in").unwrap_err(),
        "avatar installation was not found"
    );
}
