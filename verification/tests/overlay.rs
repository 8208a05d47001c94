use fauni_search::config::{ConfigEnvironment, ConfigSource, ContentTypeConfigRecord};
use fauni_search::error::IoErrorKind;
use fauni_search::json::Json;
use fauni_search::overlay::{
    delete_runtime_overlay_content_type, delete_runtime_overlay_library_content_type,
    delete_runtime_overlay_provider_config, delete_runtime_overlay_provider_model,
    library_content_type_overrides, overlay_with_member, overlay_without_member,
    update_runtime_overlay_content_types, update_runtime_overlay_library_content_types,
    upsert_runtime_overlay_content_type, upsert_runtime_overlay_library_content_type,
    upsert_runtime_overlay_provider_config, upsert_runtime_overlay_provider_model,
};

fn to_json(value: &serde_json::Value) -> Json {
    match value {
        serde_json::Value::Null => Json::Null,
        serde_json::Value::Bool(b) => Json::Bool(*b),
        serde_json::Value::Number(n) => Json::Number(n.to_string()),
        serde_json::Value::String(s) => Json::Str(s.clone()),
        serde_json::Value::Array(items) => Json::Array(items.iter().map(to_json).collect()),
        serde_json::Value::Object(map) => {
            Json::Object(map.iter().map(|(k, v)| (k.clone(), to_json(v))).collect())
        }
    }
}

fn from_json(value: &Json) -> serde_json::Value {
    match value {
        Json::Null => serde_json::Value::Null,
        Json::Bool(b) => serde_json::Value::Bool(*b),
        Json::Number(n) => serde_json::from_str(n).unwrap(),
        Json::Str(s) => serde_json::Value::String(s.clone()),
        Json::Array(items) => serde_json::Value::Array(items.iter().map(from_json).collect()),
        Json::Object(pairs) => {
            let mut map = serde_json::Map::new();
            for (k, v) in pairs {
                map.insert(k.clone(), from_json(v));
            }
            serde_json::Value::Object(map)
        }
    }
}

fn doc(text: &str) -> Json {
    to_json(&serde_json::from_str::<serde_json::Value>(text).unwrap())
}

fn same(actual: &Json, expected: &str) {
    let expected: serde_json::Value = serde_json::from_str(expected).unwrap();
    assert_eq!(from_json(actual), expected);
}

fn path(segments: &[&str]) -> Vec<String> {
    segments.iter().map(|s| s.to_string()).collect()
}

const REPO: &str = "/srv/fauni/fauni.config.json";
const RUNTIME: &str = "/srv/runtime/runtime-config.json";

const BASE: &str = r#"{
  "provider": {
    "local_sidecar": {
      "kind": "local_sidecar",
      "active_model": "model-a",
      "models": {
        "model-a": {
          "version": "main",
          "embedding_capabilities": { "vector_types": ["multi_vector_late_interaction"] }
        }
      }
    }
  },
  "content_types": {
    "image": {
      "enabled": true,
      "model": "local_sidecar/model-a",
      "vector_type": "multi_vector_late_interaction"
    }
  }
}"#;

fn env_with(runtime: Option<&str>) -> ConfigEnvironment {
    let mut files = vec![(REPO.to_string(), ConfigSource::Parsed(doc(BASE)))];
    if let Some(text) = runtime {
        files.push((RUNTIME.to_string(), ConfigSource::Parsed(doc(text))));
    }
    ConfigEnvironment {
        fauni_config_path: Some(REPO.to_string()),
        app_runtime_dir: Some("/srv/runtime".to_string()),
        files,
    }
}

#[test]
fn storing_creates_the_objects_on_the_way() {
    let r = overlay_with_member(doc("{}"), &path(&["provider", "p", "models"]), "m", doc("{\"version\":\"v\"}"));
    same(&r, r#"{"provider":{"p":{"models":{"m":{"version":"v"}}}}}"#);
}

#[test]
fn storing_replaces_documents_that_are_not_objects() {
    let r = overlay_with_member(doc("[1]"), &path(&["provider"]), "p", Json::Bool(true));
    same(&r, r#"{"provider":{"p":true}}"#);
    let r = overlay_with_member(doc(r#"{"provider":"x","keep":1}"#), &path(&["provider"]), "p", Json::Null);
    same(&r, r#"{"provider":{"p":null},"keep":1}"#);
}

#[test]
fn storing_replaces_an_existing_member() {
    let r = overlay_with_member(doc(r#"{"content_types":{"a":1,"b":2}}"#), &path(&["content_types"]), "a", doc("3"));
    same(&r, r#"{"content_types":{"a":3,"b":2}}"#);
    let r = overlay_with_member(doc(r#"{"content_types":{"a":1}}"#), &path(&[]), "content_types", doc("{}"));
    same(&r, r#"{"content_types":{}}"#);
}

#[test]
fn deleting_drops_the_objects_left_empty() {
    let r = overlay_without_member(
        doc(r#"{"provider":{"p":{"models":{"m":{}}}},"other":1}"#),
        &path(&["provider", "p", "models"]),
        "m",
    );
    same(&r, r#"{"other":1}"#);
    let r = overlay_without_member(
        doc(r#"{"provider":{"p":{"models":{"m":{},"n":{}}}}}"#),
        &path(&["provider", "p", "models"]),
        "m",
    );
    same(&r, r#"{"provider":{"p":{"models":{"n":{}}}}}"#);
}

#[test]
fn deleting_under_a_missing_object_changes_nothing() {
    let r = overlay_without_member(doc(r#"{"provider":{}}"#), &path(&["provider", "p", "models"]), "m");
    same(&r, r#"{"provider":{}}"#);
    let r = overlay_without_member(doc("7"), &path(&["provider"]), "p");
    same(&r, "7");
}

#[test]
fn deleting_with_the_last_object_missing_still_prunes() {
    let r = overlay_without_member(doc(r#"{"provider":{"p":{}}}"#), &path(&["provider", "p", "models"]), "m");
    same(&r, r#"{}"#);
    let r = overlay_without_member(doc(r#"{"provider":{}}"#), &path(&["provider"]), "p");
    same(&r, r#"{}"#);
    let r = overlay_without_member(doc(r#"{"provider":{"p":{"kind":"x"}}}"#), &path(&["provider", "p", "models"]), "m");
    same(&r, r#"{"provider":{"p":{"kind":"x"}}}"#);
}

#[test]
fn store_then_delete_gives_back_the_overlay() {
    let start = r#"{"content_types":{"video":{"enabled":false}},"x":[1]}"#;
    let stored = overlay_with_member(doc(start), &path(&["content_types"]), "image", doc(r#"{"enabled":true}"#));
    let back = overlay_without_member(stored, &path(&["content_types"]), "image");
    same(&back, start);
}

#[test]
fn provider_config_upsert_is_written_and_decoded() {
    let env = env_with(None);
    let provider = doc(r#"{"kind":"dashscope","enabled":false,"models":{}}"#);
    let update = upsert_runtime_overlay_provider_config(&env, "dashscope", provider).unwrap();
    assert_eq!(update.runtime_path, RUNTIME);
    same(&update.runtime_value, r#"{"provider":{"dashscope":{"kind":"dashscope","enabled":false,"models":{}}}}"#);
    let ids: Vec<&str> = update.loaded.config.provider.iter().map(|(k, _)| k.as_str()).collect();
    assert_eq!(ids, vec!["dashscope", "local_sidecar"]);
}

#[test]
fn provider_config_delete_prunes_the_overlay() {
    let env = env_with(Some(r#"{"provider":{"dashscope":{"kind":"dashscope"}}}"#));
    let update = delete_runtime_overlay_provider_config(&env, "dashscope").unwrap();
    same(&update.runtime_value, "{}");
    assert_eq!(update.loaded.config.provider.len(), 1);
}

#[test]
fn provider_model_upsert_and_delete() {
    let env = env_with(None);
    let model = doc(r#"{"version":"tag-2"}"#);
    let update = upsert_runtime_overlay_provider_model(&env, "local_sidecar", "model-a", model).unwrap();
    same(&update.runtime_value, r#"{"provider":{"local_sidecar":{"models":{"model-a":{"version":"tag-2"}}}}}"#);
    let (_, provider) = &update.loaded.config.provider[0];
    assert_eq!(provider.models[0].1.version, "tag-2");

    let env = env_with(Some(r#"{"provider":{"local_sidecar":{"models":{"model-a":{"version":"tag-2"}}}}}"#));
    let update = delete_runtime_overlay_provider_model(&env, "local_sidecar", "model-a").unwrap();
    same(&update.runtime_value, "{}");
    let (_, provider) = &update.loaded.config.provider[0];
    assert_eq!(provider.models[0].1.version, "main");
}

#[test]
fn content_type_edits() {
    let env = env_with(None);
    let binding = doc(r#"{"enabled":false,"model":"local_sidecar/model-a","vector_type":"multi_vector_late_interaction"}"#);
    let update = upsert_runtime_overlay_content_type(&env, "image", binding).unwrap();
    assert!(!update.loaded.config.content_types[0].1.enabled);

    let env = env_with(Some(r#"{"content_types":{"image":{"enabled":false}}}"#));
    let update = delete_runtime_overlay_content_type(&env, "image").unwrap();
    same(&update.runtime_value, "{}");
    assert!(update.loaded.config.content_types[0].1.enabled);

    let env = env_with(Some(r#"{"keep":true}"#));
    let update = update_runtime_overlay_content_types(&env, doc("{}")).unwrap();
    same(&update.runtime_value, r#"{"content_types":{},"keep":true}"#);
}

#[test]
fn library_content_type_edits() {
    let bindings = vec![(
        "image".to_string(),
        ContentTypeConfigRecord {
            enabled: true,
            model: "local_sidecar/model-a".to_string(),
            vector_type: "multi_vector_late_interaction".to_string(),
        },
    )];
    let overrides = library_content_type_overrides(&bindings);
    assert_eq!(overrides.len(), 1);
    assert_eq!(overrides[0].0, "image");
    assert_eq!(overrides[0].1.enabled, Some(true));
    assert_eq!(overrides[0].1.model.as_deref(), Some("local_sidecar/model-a"));
    assert_eq!(overrides[0].1.vector_type.as_deref(), Some("multi_vector_late_interaction"));

    let env = env_with(None);
    let encoded = doc(r#"{"image":{"enabled":true,"model":"local_sidecar/model-a","vector_type":"multi_vector_late_interaction"}}"#);
    let update = update_runtime_overlay_library_content_types(&env, "lib-1", encoded).unwrap();
    assert_eq!(update.loaded.config.libraries[0].0, "lib-1");

    let env = env_with(None);
    let update = upsert_runtime_overlay_library_content_type(&env, "lib-1", "image", doc(r#"{"enabled":false}"#)).unwrap();
    same(&update.runtime_value, r#"{"libraries":{"lib-1":{"content_types":{"image":{"enabled":false}}}}}"#);

    let env = env_with(Some(r#"{"libraries":{"lib-1":{"content_types":{"image":{"enabled":false}}}}}"#));
    let update = delete_runtime_overlay_library_content_type(&env, "lib-1", "image").unwrap();
    same(&update.runtime_value, "{}");
    assert!(update.loaded.config.libraries.is_empty());
}

#[test]
fn an_edit_that_breaks_the_configuration_is_refused() {
    let env = env_with(None);
    let binding = doc(r#"{"enabled":true,"model":"local_sidecar/missing","vector_type":"multi_vector_late_interaction"}"#);
    let err = upsert_runtime_overlay_content_type(&env, "image", binding).unwrap_err();
    assert_eq!(err.kind(), IoErrorKind::InvalidData);
    assert!(err.message().starts_with("content_types.image.model is invalid"));
}

#[test]
fn an_edit_without_a_runtime_directory_is_refused() {
    let mut env = env_with(None);
    env.app_runtime_dir = None;
    let err = delete_runtime_overlay_content_type(&env, "image").unwrap_err();
    assert_eq!(err.kind(), IoErrorKind::InvalidInput);
}

#[test]
fn store_then_delete_under_missing_objects_gives_back_the_overlay() {
    let start = r#"{"provider":{"other":{"kind":"x"}},"keep":1}"#;
    let p = path(&["provider", "local_sidecar", "models"]);
    let stored = overlay_with_member(doc(start), &p, "model-b", doc(r#"{"version":"v"}"#));
    same(&stored, r#"{"provider":{"other":{"kind":"x"},"local_sidecar":{"models":{"model-b":{"version":"v"}}}},"keep":1}"#);
    let back = overlay_without_member(stored, &p, "model-b");
    same(&back, start);
}

#[test]
fn provider_model_round_trip_through_the_runtime_file() {
    let before = r#"{"content_types":{"image":{"enabled":true}}}"#;
    let env = env_with(Some(before));
    let stored = upsert_runtime_overlay_provider_model(&env, "local_sidecar", "model-b", doc(r#"{"version":"v2"}"#)).unwrap();
    let written = serde_json::to_string(&from_json(&stored.runtime_value)).unwrap();
    let env = env_with(Some(&written));
    let deleted = delete_runtime_overlay_provider_model(&env, "local_sidecar", "model-b").unwrap();
    same(&deleted.runtime_value, before);
}
