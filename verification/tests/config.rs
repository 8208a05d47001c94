use fauni_search::config::{
    load_merged_runtime_config_from_paths, merged_config_paths_from_env,
    resolve_local_sidecar_active_model, resolve_local_sidecar_active_model_from_env,
    resolve_local_sidecar_model, resolve_local_sidecar_model_from_env, validate_fauni_config,
    ConfigEnvironment, ConfigSource,
};
use fauni_search::error::IoErrorKind;
use fauni_search::json::Json;

fn to_json(value: &serde_json::Value) -> Json {
    match value {
        serde_json::Value::Null => Json::Null,
        serde_json::Value::Bool(b) => Json::Bool(*b),
        serde_json::Value::Number(n) => Json::Number(n.to_string()),
        serde_json::Value::String(s) => Json::Str(s.clone()),
        serde_json::Value::Array(items) => Json::Array(items.iter().map(to_json).collect()),
        serde_json::Value::Object(map) => {
            Json::Object(map.iter().map(|(k, v)| (k.clone(), to_json(v))).collect())
        }
    }
}

fn parsed(text: &str) -> ConfigSource {
    let value: serde_json::Value = serde_json::from_str(text).unwrap();
    ConfigSource::Parsed(to_json(&value))
}

fn env_with(files: Vec<(&str, ConfigSource)>) -> ConfigEnvironment {
    ConfigEnvironment {
        fauni_config_path: None,
        app_runtime_dir: None,
        files: files.into_iter().map(|(p, s)| (p.to_string(), s)).collect(),
    }
}

const REPO: &str = "/tmp/fauni-merge/fauni.config.json";
const RUNTIME: &str = "/tmp/fauni-merge/runtime/runtime-config.json";

#[test]
fn merged_runtime_config_overlays_provider_models_and_content_types() {
    let env = env_with(vec![
        (
            REPO,
            parsed(
                r#"{
              "provider": {
                "local_sidecar": {
                  "kind": "local_sidecar",
                  "active_model": "model-a",
                  "models": {
                    "model-a": {
                      "version": "main",
                      "embedding_capabilities": {
                        "vector_types": ["multi_vector_late_interaction"]
                      }
                    }
                  }
                }
              },
              "content_types": {
                "image": {
                  "enabled": true,
                  "model": "local_sidecar/model-a",
                  "vector_type": "multi_vector_late_interaction"
                }
              }
            }"#,
            ),
        ),
        (
            RUNTIME,
            parsed(
                r#"{
              "provider": {
                "local_sidecar": {
                  "models": {
                    "model-a": {
                      "version": "custom-tag"
                    }
                  }
                }
              }
            }"#,
            ),
        ),
    ]);
    let loaded =
        load_merged_runtime_config_from_paths(&env, &REPO.to_string(), &RUNTIME.to_string())
            .unwrap();
    let active = resolve_local_sidecar_active_model(&loaded.config).unwrap();
    assert_eq!(active.model_id, "model-a");
    assert_eq!(active.version, "custom-tag");
    assert_eq!(active.backend, "colqwen3_5");
}

#[test]
fn local_sidecar_model_defaults_version_to_main() {
    let env = env_with(vec![(
        REPO,
        parsed(
            r#"{
              "provider": {
                "local_sidecar": {
                  "kind": "local_sidecar",
                  "active_model": "model-a",
                  "models": {
                    "model-a": {
                      "embedding_capabilities": {
                        "vector_types": ["multi_vector_late_interaction"]
                      }
                    }
                  }
                }
              },
              "content_types": {
                "image": {
                  "enabled": true,
                  "model": "local_sidecar/model-a",
                  "vector_type": "multi_vector_late_interaction"
                }
              }
            }"#,
        ),
    )]);
    let loaded =
        load_merged_runtime_config_from_paths(&env, &REPO.to_string(), &RUNTIME.to_string())
            .unwrap();
    let active = resolve_local_sidecar_active_model(&loaded.config).unwrap();
    assert_eq!(active.version, "main");
    assert_eq!(active.backend, "colqwen3_5");
}

const TWO_MODELS: &str = r#"{
  "provider": {
    "local_sidecar": {
      "kind": "local_sidecar",
      "active_model": "model-a",
      "models": {
        "model-a": {
          "version": "main",
          "backend": "colqwen3_5",
          "embedding_capabilities": {
            "vector_types": ["multi_vector_late_interaction"]
          }
        },
        "model-b": {
          "version": "qwen-tag",
          "backend": "qwen3_vl_embedding",
          "embedding_capabilities": {
            "vector_types": ["single_vector"]
          }
        }
      }
    }
  },
  "content_types": {
    "image": {
      "enabled": true,
      "model": "local_sidecar/model-a",
      "vector_type": "multi_vector_late_interaction"
    },
    "text": {
      "enabled": false,
      "model": "local_sidecar/model-b",
      "vector_type": "single_vector"
    }
  }
}"#;

#[test]
fn explicit_local_sidecar_model_resolves_backend() {
    let env = env_with(vec![(REPO, parsed(TWO_MODELS))]);
    let loaded =
        load_merged_runtime_config_from_paths(&env, &REPO.to_string(), &RUNTIME.to_string())
            .unwrap();
    let selected = resolve_local_sidecar_model(&loaded.config, Some("model-b")).unwrap();
    assert_eq!(selected.model_id, "model-b");
    assert_eq!(selected.version, "qwen-tag");
    assert_eq!(selected.backend, "qwen3_vl_embedding");
}

#[test]
fn missing_active_model_errors() {
    let env = env_with(vec![(
        REPO,
        parsed(
            r#"{
              "provider": {
                "local_sidecar": {
                  "kind": "local_sidecar",
                  "active_model": "missing",
                  "models": {}
                }
              }
            }"#,
        ),
    )]);
    let error = match load_merged_runtime_config_from_paths(
        &env,
        &REPO.to_string(),
        &RUNTIME.to_string(),
    ) {
        Ok(_) => panic!("expected an error"),
        Err(e) => e,
    };
    assert!(error.message().contains("active_model"));
    assert_eq!(
        error.message(),
        "provider.local_sidecar.active_model points to missing model missing."
    );
}

fn full_env(files: Vec<(&str, ConfigSource)>) -> ConfigEnvironment {
    ConfigEnvironment {
        fauni_config_path: Some(REPO.to_string()),
        app_runtime_dir: Some("/tmp/fauni-merge/runtime".to_string()),
        files: files.into_iter().map(|(p, s)| (p.to_string(), s)).collect(),
    }
}

#[test]
fn model_from_env_uses_the_environment_paths() {
    let env = full_env(vec![(REPO, parsed(TWO_MODELS))]);
    let (id, version, backend) = resolve_local_sidecar_active_model_from_env(&env).unwrap();
    assert_eq!((id.as_str(), version.as_str(), backend.as_str()), ("model-a", "main", "colqwen3_5"));
    let (id, _, backend) = resolve_local_sidecar_model_from_env(&env, Some(" model-b ")).unwrap();
    assert_eq!((id.as_str(), backend.as_str()), ("model-b", "qwen3_vl_embedding"));
}

#[test]
fn model_from_env_reports_selection_errors() {
    let env = full_env(vec![(REPO, parsed(TWO_MODELS))]);
    let err = resolve_local_sidecar_model_from_env(&env, Some("  ")).unwrap_err();
    assert_eq!(err.message(), "local_sidecar model id must be a non-empty string.");
    let err = resolve_local_sidecar_model_from_env(&env, Some("model-z")).unwrap_err();
    assert_eq!(err.message(), "provider.local_sidecar.models does not define model model-z.");
    assert_eq!(err.kind(), IoErrorKind::InvalidData);
}

#[test]
fn disabled_model_is_refused() {
    let env = full_env(vec![(
        REPO,
        parsed(
            r#"{"provider": {"local_sidecar": {"active_model": "m", "models": {"m": {"enabled": false}}}}}"#,
        ),
    )]);
    let err = resolve_local_sidecar_active_model_from_env(&env).unwrap_err();
    assert_eq!(err.message(), "provider.local_sidecar.models.m is disabled.");
}

#[test]
fn missing_provider_and_active_model_are_refused() {
    let env = full_env(vec![(REPO, parsed(r#"{}"#))]);
    let err = resolve_local_sidecar_active_model_from_env(&env).unwrap_err();
    assert_eq!(err.message(), "Fauni config must define provider.local_sidecar.");
    let env = full_env(vec![(
        REPO,
        parsed(r#"{"provider": {"local_sidecar": {"active_model": "  ", "models": {}}}}"#),
    )]);
    let err = resolve_local_sidecar_active_model_from_env(&env).unwrap_err();
    assert_eq!(
        err.message(),
        "provider.local_sidecar.active_model must be a non-empty string."
    );
}

#[test]
fn environment_errors_come_first() {
    let mut env = full_env(vec![]);
    env.app_runtime_dir = None;
    let err = resolve_local_sidecar_active_model_from_env(&env).unwrap_err();
    assert_eq!(err.kind(), IoErrorKind::InvalidInput);
    assert!(err.message().starts_with("Missing required environment variable APP_RUNTIME_DIR"));
    let env = full_env(vec![]);
    let err = resolve_local_sidecar_active_model_from_env(&env).unwrap_err();
    assert_eq!(err.kind(), IoErrorKind::NotFound);
    assert_eq!(err.message(), format!("Fauni config file was not found: {REPO}"));
    let env = full_env(vec![(REPO, ConfigSource::Malformed("expected value".to_string()))]);
    let err = resolve_local_sidecar_active_model_from_env(&env).unwrap_err();
    assert_eq!(err.kind(), IoErrorKind::InvalidData);
    assert_eq!(err.message(), format!("Failed to parse Fauni config file {REPO}: expected value"));
    let env = full_env(vec![(REPO, ConfigSource::Unreadable("denied".to_string()))]);
    let err = resolve_local_sidecar_active_model_from_env(&env).unwrap_err();
    assert_eq!(err.kind(), IoErrorKind::Other);
    assert_eq!(err.message(), format!("Failed to read Fauni config file {REPO}: denied"));
}

#[test]
fn config_paths_follow_the_environment() {
    let mut env = full_env(vec![]);
    env.fauni_config_path = Some("   ".to_string());
    env.app_runtime_dir = Some("/srv/rt/".to_string());
    let (repo, runtime) = merged_config_paths_from_env(&env).unwrap();
    assert_eq!(repo, "fauni.config.json");
    assert_eq!(runtime, "/srv/rt/runtime-config.json");
    env.app_runtime_dir = Some(String::new());
    assert_eq!(merged_config_paths_from_env(&env).unwrap().1, "runtime-config.json");
}

#[test]
fn undecodable_document_is_refused() {
    let env = full_env(vec![(REPO, parsed(r#"{"provider": {"local_sidecar": {"enabled": "yes"}}}"#))]);
    let err = resolve_local_sidecar_active_model_from_env(&env).unwrap_err();
    assert_eq!(err.kind(), IoErrorKind::InvalidData);
    assert!(err.message().starts_with(
        "Failed to decode merged Fauni config from /tmp/fauni-merge/fauni.config.json and /tmp/fauni-merge/runtime/runtime-config.json: "
    ));
}

#[test]
fn content_type_binding_must_name_a_known_vector_type() {
    let env = full_env(vec![(
        REPO,
        parsed(
            r#"{"provider": {"p": {"models": {"m": {"embedding_capabilities": {"vector_types": ["single_vector"]}}}}},
                "content_types": {"image": {"model": "p/m", "vector_type": "multi"}}}"#,
        ),
    )]);
    let loaded = fauni_search::config::load_merged_runtime_config(&env);
    let err = match loaded {
        Ok(_) => panic!("expected an error"),
        Err(e) => e,
    };
    assert_eq!(
        err.message(),
        "content_types.image.vector_type=multi is not supported by model p/m."
    );
    let env = full_env(vec![(
        REPO,
        parsed(r#"{"content_types": {"image": {"model": "nope", "vector_type": "multi"}}}"#),
    )]);
    let err = match fauni_search::config::load_merged_runtime_config(&env) {
        Ok(_) => panic!("expected an error"),
        Err(e) => e,
    };
    assert_eq!(
        err.message(),
        "content_types.image.model is invalid: model reference must be provider_id/model_id, got nope."
    );
    let ok = full_env(vec![(REPO, parsed(TWO_MODELS))]);
    let loaded = fauni_search::config::load_merged_runtime_config(&ok).ok().unwrap();
    assert!(validate_fauni_config(&loaded.config).is_ok());
}

#[test]
fn active_model_and_unselected_model_from_env_agree() {
    let env = full_env(vec![(REPO, parsed(TWO_MODELS))]);
    let active = resolve_local_sidecar_active_model_from_env(&env).unwrap();
    let unselected = resolve_local_sidecar_model_from_env(&env, None).unwrap();
    assert_eq!(active, unselected);
    let env = full_env(vec![]);
    let a = resolve_local_sidecar_active_model_from_env(&env).unwrap_err();
    let b = resolve_local_sidecar_model_from_env(&env, None).unwrap_err();
    assert_eq!((a.kind(), a.message()), (b.kind(), b.message()));
}

#[test]
fn validation_meets_problems_in_provider_key_order() {
    let env = env_with(vec![(
        REPO,
        parsed(
            r#"{"provider": {
                 "zeta": {"kind": "x", "models": {"m": {"version": " "}}},
                 "alpha": {"kind": "x", "models": {"m": {"version": ""}}}
               }}"#,
        ),
    )]);
    let err = load_merged_runtime_config_from_paths(&env, &REPO.to_string(), &RUNTIME.to_string()).unwrap_err();
    assert_eq!(err.message(), "provider.alpha.models.m.version cannot be empty.");
}
