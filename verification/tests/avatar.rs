use sha2::Digest;
use herdr_pet::avatar::{animation_key, check_source, inspect, inspect_parsed, validate_tree, JsonValue};

fn to_json(value: &serde_json::Value) -> JsonValue {
    match value {
        serde_json::Value::Null => JsonValue::Null,
        serde_json::Value::Bool(b) => JsonValue::Bool(*b),
        serde_json::Value::Number(n) => JsonValue::Number(n.as_u64()),
        serde_json::Value::String(s) => JsonValue::String(s.clone()),
        serde_json::Value::Array(items) => JsonValue::Array(items.iter().map(to_json).collect()),
        serde_json::Value::Object(map) => {
            JsonValue::Object(map.iter().map(|(k, v)| (k.clone(), to_json(v))).collect())
        }
    }
}

fn inspect_with_parse(source: &str) -> Result<herdr_pet::avatar::AvatarProjectInspection, String> {
    check_source(source)?;
    let parsed = serde_json::from_str::<serde_json::Value>(source)
        .map(|v| to_json(&v))
        .map_err(|e| e.to_string());
    inspect_parsed(source, parsed)
}

const SMALL_PROJECT: &str = r#"{
  "version": 2,
  "expressions": [{"id": "neutral"}],
  "sequences": [
    {"name": "Idle", "builtIn": true, "id": "idle", "steps": [1, 2]},
    {"name": "Célébrer vite", "builtIn": false, "steps": [1]},
    {"name": "Célébrer  vite!", "steps": []}
  ],
  "library": {"avatars": [
    {"id": "strobi", "name": "Strobi"},
    {"id": "other", "name": "Other", "behavior": {"expressions": [1, 2], "sequences": [{"name": "Wave", "steps": [1, 2, 3]}]}}
  ]}
}"#;

#[test]
fn rejects_unsupported_and_dangerous_projects() {
    assert!(inspect(r#"{"version":1}"#).unwrap_err().contains("unsupported"));
    assert!(inspect(r#"{"version":2,"__proto__":{},"library":{"avatars":[]}}"#)
        .unwrap_err()
        .contains("unsafe"));
}

#[test]
fn matches_official_animation_slugging() {
    let mut used = Vec::new();
    let first = to_json(&serde_json::from_str(r#"{"name": "Célébrer vite", "builtIn": false}"#).unwrap());
    let second = to_json(&serde_json::from_str(r#"{"name": "Célébrer vite", "builtIn": false}"#).unwrap());
    assert_eq!(animation_key(&first, &mut used), "celebrer-vite");
    assert_eq!(animation_key(&second, &mut used), "celebrer-vite-2");
}

#[test]
fn inspects_a_small_project() {
    let inspection = inspect(SMALL_PROJECT).unwrap();
    assert_eq!(inspection.version, 2);
    assert_eq!(inspection.size_bytes, SMALL_PROJECT.len());
    assert_eq!(inspection.content_hash.len(), 64);
    assert_eq!(inspection.display_name, "Strobi + 1");
    assert_eq!(inspection.avatars[0].id, "strobi");
    assert_eq!(
        inspection.avatars[0].animation_keys,
        ["idle", "celebrer-vite", "celebrer-vite-2"]
    );
    assert_eq!(inspection.avatars[1].animation_keys, ["wave"]);
    assert_eq!(inspection.expression_count, 3);
    assert_eq!(inspection.animation_count, 4);
    assert_eq!(inspection.total_steps, 6);
}

#[test]
fn content_hash_is_the_sha256_of_the_text() {
    let inspection = inspect(SMALL_PROJECT).unwrap();
    let other = inspect(&format!("{SMALL_PROJECT} ")).unwrap();
    assert_ne!(inspection.content_hash, other.content_hash);
    assert!(inspection.content_hash.chars().all(|c| c.is_ascii_hexdigit() && !c.is_ascii_uppercase()));
    assert_eq!(
        inspection.content_hash,
        format!("{:x}", sha2::Sha256::digest(SMALL_PROJECT.as_bytes()))
    );
}

#[test]
fn reports_each_missing_part() {
    assert_eq!(inspect("").unwrap_err(), "Avatar Studio project is empty");
    assert!(inspect("{").unwrap_err().starts_with("invalid JSON: "));
    assert_eq!(inspect(r#"{"version":2}"#).unwrap_err(), "project is missing library");
    assert_eq!(
        inspect(r#"{"version":2,"library":{"avatars":[]}}"#).unwrap_err(),
        "project contains no avatars"
    );
    assert_eq!(
        inspect(r#"{"version":2,"library":{"avatars":[{}]}}"#).unwrap_err(),
        "project contains no expressions"
    );
    assert_eq!(
        inspect(r#"{"version":2,"library":{"avatars":[{}]},"expressions":[1]}"#).unwrap_err(),
        "project is missing animations"
    );
    assert_eq!(
        inspect(r#"{"version":2,"library":{"avatars":[{}]},"expressions":[1],"sequences":[]}"#).unwrap_err(),
        "invalid or missing id"
    );
    assert_eq!(
        inspect(r#"{"version":2,"library":{"avatars":[{"id":"a","name":"A"},{"id":"a","name":"B"}]},"expressions":[1],"sequences":[]}"#)
            .unwrap_err(),
        "duplicate avatar id a"
    );
    assert_eq!(
        inspect(r#"{"version":2,"library":{"avatars":[{"id":"a","name":"A"}]},"expressions":[1],"sequences":[{}]}"#)
            .unwrap_err(),
        "animation is missing steps"
    );
    assert_eq!(
        inspect(r#"{"version":2,"library":{"avatars":[{"id":"a","name":"A","behavior":{"expressions":[]}}]},"expressions":[1],"sequences":[]}"#)
            .unwrap_err(),
        "avatar a has an invalid expression library"
    );
}

#[test]
fn rejects_deep_nesting_and_long_strings() {
    let deep = format!("{}{}", "[".repeat(40), "]".repeat(40));
    assert_eq!(inspect(&deep).unwrap_err(), "project nesting exceeds 32");
    let long = format!(r#"{{"version":2,"x":"{}"}}"#, "a".repeat(16 * 1024 + 1));
    assert_eq!(inspect(&long).unwrap_err(), "project string exceeds 16384 bytes");
    let key = format!(r#"{{"{}":1}}"#, "k".repeat(257));
    assert_eq!(inspect(&key).unwrap_err(), "project object key is too long");
    assert!(validate_tree(&JsonValue::Null, 33).is_err());
    assert!(validate_tree(&JsonValue::Null, 32).is_ok());
}

#[test]
fn rejects_projects_over_five_mebibytes() {
    let big = " ".repeat(5 * 1024 * 1024 + 1);
    assert_eq!(check_source(&big).unwrap_err(), "Avatar Studio project exceeds 5242880 bytes");
}

#[test]
fn inspects_a_maximum_size_project_quickly() {
    let mut source = SMALL_PROJECT.to_owned();
    source.push_str(&" ".repeat(5 * 1024 * 1024 - source.len()));
    assert_eq!(source.len(), 5 * 1024 * 1024);
    let started = std::time::Instant::now();
    let inspection = inspect(&source).unwrap();
    assert_eq!(inspection.size_bytes, 5 * 1024 * 1024);
    assert!(
        started.elapsed() < std::time::Duration::from_secs(2),
        "5 MiB inspection took {:?}",
        started.elapsed()
    );
}

#[test]
fn inspecting_a_given_parse_agrees_with_inspecting_the_text() {
    assert_eq!(inspect_with_parse(SMALL_PROJECT), inspect(SMALL_PROJECT));
    assert_eq!(inspect_with_parse("{"), inspect("{"));
    assert_eq!(
        inspect_parsed(SMALL_PROJECT, Err("broken".into())).unwrap_err(),
        "invalid JSON: broken"
    );
}
