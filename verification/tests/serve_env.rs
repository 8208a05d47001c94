use fauni_search::env_file::{parse_env_assignments, unquote_env_value};
use fauni_search::error::IoErrorKind;

#[test]
fn parses_basic_env_file() {
    let parsed = parse_env_assignments(
        r#"
            # comment
            APP_HOST=127.0.0.1
            export APP_PORT=53210
            QUOTED="hello world"
            SINGLE='value'
            "#,
    )
    .expect("env file should parse");

    assert_eq!(
        parsed,
        vec![
            ("APP_HOST".to_string(), "127.0.0.1".to_string()),
            ("APP_PORT".to_string(), "53210".to_string()),
            ("QUOTED".to_string(), "hello world".to_string()),
            ("SINGLE".to_string(), "value".to_string()),
        ]
    );
}

#[test]
fn rejects_invalid_env_key() {
    let error = parse_env_assignments("1APP=bad").expect_err("invalid key should fail");
    assert_eq!(error.kind(), IoErrorKind::InvalidData);
}

#[test]
fn env_error_names_line_and_key() {
    let error = parse_env_assignments("A=1\n\nB-C=2\n").expect_err("bad key");
    assert_eq!(error.message, "Invalid env key `B-C` on line 3");
    let error = parse_env_assignments("A=1\nnot an assignment\n").expect_err("no equals");
    assert_eq!(error.kind(), IoErrorKind::InvalidData);
    assert_eq!(error.message, "Invalid env assignment on line 2");
}

#[test]
fn env_values_keep_inner_equals_and_crlf_lines() {
    let parsed = parse_env_assignments("URL = http://x/?a=b\r\nEMPTY=\r\n").unwrap();
    assert_eq!(
        parsed,
        vec![
            ("URL".to_string(), "http://x/?a=b".to_string()),
            ("EMPTY".to_string(), String::new()),
        ]
    );
}

#[test]
fn unquote_only_matching_pairs() {
    assert_eq!(unquote_env_value("\"a b\""), "a b");
    assert_eq!(unquote_env_value("'x'"), "x");
    assert_eq!(unquote_env_value("\"x'"), "\"x'");
    assert_eq!(unquote_env_value("\""), "\"");
    assert_eq!(unquote_env_value("\"\""), "");
}

use fauni_search::serve::{
    app_bind, apply_env_file, apply_serve_overrides, ensure_default_app_bind_env, env_arg_hint,
    env_file_candidate, qdrant_collections_url, required_env, resolve_path, runtime_generation_paths,
    runtime_generation_step, select_env_file, serve_ready, sidecar_health_url, LoadedEnv, ProcessEnv,
    RuntimeGeneration, ServeArgs,
};

#[test]
fn serve_overrides_host_and_port_without_touching_base_url() {
    let mut env = ProcessEnv::new();
    env.set("APP_HOST", "127.0.0.1");
    env.set("APP_PORT", "53210");
    env.set("FAUS_BASE_URL", "http://127.0.0.1:39010");
    apply_serve_overrides(
        &ServeArgs {
            host: Some("0.0.0.0".to_string()),
            port: Some(39099),
            dev: false,
        },
        &mut env,
    );

    assert_eq!(env.get("APP_HOST").unwrap(), "0.0.0.0");
    assert_eq!(env.get("APP_PORT").unwrap(), "39099");
    assert_eq!(env.get("FAUS_BASE_URL").unwrap(), "http://127.0.0.1:39010");
}

#[test]
fn qdrant_url_can_be_derived_from_host_port() {
    let mut env = ProcessEnv::new();
    env.set("QDRANT_HOST", "127.0.0.1");
    env.set("QDRANT_PORT", "56333");

    assert_eq!(
        qdrant_collections_url(&mut env).unwrap(),
        "http://127.0.0.1:56333/collections"
    );
    assert_eq!(env.get("QDRANT_URL").unwrap(), "http://127.0.0.1:56333");
}

#[test]
fn qdrant_url_prefers_configured_value_and_trims_slashes() {
    let mut env = ProcessEnv::new();
    env.set("QDRANT_URL", "http://db:6333//");
    env.set("QDRANT_HOST", "ignored");
    assert_eq!(qdrant_collections_url(&mut env).unwrap(), "http://db:6333/collections");

    let mut blank = ProcessEnv::new();
    blank.set("QDRANT_URL", "   ");
    let error = qdrant_collections_url(&mut blank).unwrap_err();
    assert_eq!(error.kind, IoErrorKind::InvalidInput);
    assert_eq!(
        error.message,
        "Missing required environment variable QDRANT_HOST; source .env or use faus serve --dev"
    );
    assert!(blank.get("QDRANT_URL").is_some());
}

#[test]
fn default_bind_env_fills_only_missing_values() {
    let mut env = ProcessEnv::new();
    env.set("APP_HOST", "0.0.0.0");
    ensure_default_app_bind_env(&mut env);
    assert_eq!(env.get("APP_HOST").unwrap(), "0.0.0.0");
    assert_eq!(env.get("APP_PORT").unwrap(), "53210");
    assert_eq!(app_bind(&env).unwrap(), "0.0.0.0:53210");
    let ready = serve_ready("0.0.0.0:53210");
    assert_eq!(ready.base_url, "http://0.0.0.0:53210");
    assert_eq!(ready.health_url, "http://0.0.0.0:53210/health");
    assert!(ServeArgs::default_runtime().host.is_none());
}

#[test]
fn sidecar_url_and_required_env() {
    let mut env = ProcessEnv::new();
    assert_eq!(
        required_env(&env, "SIDECAR_HOST").unwrap_err().message,
        "Missing required environment variable SIDECAR_HOST; source .env or use faus serve --dev"
    );
    env.set("SIDECAR_HOST", "127.0.0.1");
    assert_eq!(
        sidecar_health_url(&env).unwrap_err().message,
        "Missing required environment variable SIDECAR_PORT; source .env or use faus serve --dev"
    );
    env.set("SIDECAR_PORT", "55100");
    assert_eq!(sidecar_health_url(&env).unwrap(), "http://127.0.0.1:55100/health");
}

#[test]
fn env_file_profiles_and_loading() {
    let mut env = ProcessEnv::new();
    let dev = env_file_candidate("/repo", true, &env);
    assert_eq!(dev.source, "/repo/.env.dev");
    assert_eq!(dev.mode, "dev");
    let missing = select_env_file(dev, false).unwrap_err();
    assert_eq!(missing.kind, IoErrorKind::NotFound);
    assert_eq!(
        missing.message,
        ".env.dev is missing; run scripts/local/bootstrap-linux.sh --dev first"
    );

    let default = env_file_candidate("/repo/", false, &env);
    assert_eq!(default.source, "/repo/.env");
    assert_eq!(default.mode, "default");

    env.set("FAUNI_ENV_FILE", "conf/local.env");
    let custom = env_file_candidate("/repo", false, &env);
    assert_eq!(custom.source, "/repo/conf/local.env");
    assert_eq!(custom.missing_message, "FAUNI_ENV_FILE does not exist: conf/local.env");
    assert_eq!(resolve_path("/repo", "/etc/x.env"), "/etc/x.env");

    let loaded: LoadedEnv = select_env_file(custom, true).unwrap();
    apply_env_file(&mut env, &loaded, "A=1\nA=2\nexport B='q'\n").unwrap();
    assert_eq!(env.get("A").unwrap(), "2");
    assert_eq!(env.get("B").unwrap(), "q");
    assert_eq!(env.get("FAUNI_CONFIG_SOURCE").unwrap(), "/repo/conf/local.env");
    assert_eq!(env.get("FAUNI_CONFIG_TARGET").unwrap(), "/repo/conf/local.env");
    assert_eq!(env.get("FAUNI_CONFIG_MODE").unwrap(), "custom");
    assert_eq!(env_arg_hint(&env), "");

    let before = env.get("A");
    assert!(apply_env_file(&mut env, &loaded, "A=3\n9X=1\n").is_err());
    assert_eq!(env.get("A"), before);
}

#[test]
fn runtime_generation_decisions() {
    let mut env = ProcessEnv::new();
    env.set("APP_RUNTIME_DIR", "var/runtime");
    env.set("QDRANT_STORAGE_DIR", "/data/qdrant");
    let paths = runtime_generation_paths("/repo", &env).unwrap();
    assert_eq!(paths.app_runtime_dir, "/repo/var/runtime");
    assert_eq!(paths.qdrant_storage_dir, "/data/qdrant");
    assert_eq!(paths.runtime_config_path, "/repo/var/runtime/runtime-config.json");

    assert!(matches!(runtime_generation_step(true, true, true, &env), RuntimeGeneration::Ready));
    assert!(matches!(
        runtime_generation_step(false, false, false, &env),
        RuntimeGeneration::Initialize
    ));
    env.set("FAUNI_CONFIG_MODE", "dev");
    match runtime_generation_step(false, false, true, &env) {
        RuntimeGeneration::Refused(error) => {
            assert_eq!(error.kind, IoErrorKind::InvalidInput);
            assert_eq!(
                error.message,
                "Legacy runtime data detected; run scripts/local/cutover-runtime.sh --dev before starting services"
            );
        }
        _ => panic!("legacy data must be refused"),
    }
}
