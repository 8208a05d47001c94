use fauni_search::model::{ObservedSourceFile, SourceActionKind, SourceActionPlan, SourceRecord};
use fauni_search::source_roots::{
    count_matched_observed_entries, count_sources_for_root, diff_observed_entries, extension_of,
    invalidated_source_record, is_supported_source_extension, normalize_rule_extensions,
    normalize_rule_globs, observed_entry_is_in_scope, out_of_scope_status_reason,
    planned_source_action_paths, queued_watch_state_for_action, read_string_filter,
    running_watch_state_for_action, source_root_action_in_flight, source_root_rules_allow_path,
    source_root_status_from_scan, source_root_watch_state, SourceRootRulesPayload,
};
use fauni_search::json::Json;

fn strings(v: &[&str]) -> Vec<String> {
    v.iter().map(|s| s.to_string()).collect()
}

fn rules(included: &[&str], excluded: &[&str], exts: &[&str]) -> SourceRootRulesPayload {
    SourceRootRulesPayload {
        include_globs: strings(included),
        exclude_globs: strings(excluded),
        include_extensions: strings(exts),
    }
}

fn observed(rel: &str, size: u64, modified: Option<u128>) -> ObservedSourceFile {
    ObservedSourceFile {
        absolute_path: format!("/root/{rel}"),
        relative_path: rel.to_string(),
        size_bytes: size,
        modified_at_ms: modified,
    }
}

fn source(root: Option<&str>, status: &str, size: Option<u64>, modified: Option<u128>) -> SourceRecord {
    SourceRecord {
        id: "src".to_string(),
        source_root_id: root.map(str::to_string),
        source_root_path: None,
        source_path: "/root/a.pdf".to_string(),
        source_uri: "file:///root/a.pdf".to_string(),
        relative_path: None,
        source_type: "pdf".to_string(),
        media_type: "application/pdf".to_string(),
        kind: "document".to_string(),
        status: status.to_string(),
        status_reason: None,
        page_count: Some(3),
        duration_ms: None,
        observed_size_bytes: size,
        observed_modified_at_ms: modified,
        source_content_id: "c".to_string(),
        asset_ids: strings(&["a1"]),
    }
}

#[test]
fn glob_rules_are_normalized_into_a_sorted_set() {
    let globs = normalize_rule_globs(strings(&[" ./reports/**/ ", "a\\b", "/", "reports/**", "zeta"]));
    assert_eq!(globs, strings(&["a/b", "reports/**", "zeta"]));
    let exts = normalize_rule_extensions(strings(&[".PDF", "..png", " ", "pdf", "Jpg"]));
    assert_eq!(exts, strings(&["jpg", "pdf", "png"]));
}

#[test]
fn source_root_states() {
    assert_eq!(source_root_status_from_scan(false, "ready"), "disabled");
    assert_eq!(source_root_status_from_scan(true, "degraded"), "degraded");
    assert_eq!(source_root_status_from_scan(true, "ready"), "ready");
    assert_eq!(source_root_watch_state(true, "ready", true), "queued_refresh");
    assert_eq!(source_root_watch_state(true, "degraded", false), "error");
    assert_eq!(source_root_watch_state(true, "ready", false), "watching");
    assert_eq!(queued_watch_state_for_action(SourceActionKind::Refresh), "queued_refresh");
    assert_eq!(queued_watch_state_for_action(SourceActionKind::Rescan), "queued_rescan");
    assert_eq!(running_watch_state_for_action(SourceActionKind::Rescan), "rescanning");
    assert!(source_root_action_in_flight("refreshing"));
    assert!(!source_root_action_in_flight("watching"));
    assert_eq!(SourceActionKind::Rebuild.as_str(), "rebuild");
    assert!(SourceActionKind::Rebuild.requires_full_scan());
    assert!(!SourceActionKind::Refresh.requires_full_scan());
}

#[test]
fn path_rules_and_extensions_decide_scope() {
    let r = rules(&["reports/**"], &["reports/tmp/**"], &[]);
    assert!(source_root_rules_allow_path("reports\\2025\\a.pdf", &r));
    assert!(!source_root_rules_allow_path("reports/tmp/a.pdf", &r));
    assert!(!source_root_rules_allow_path("other/a.pdf", &r));
    assert_eq!(extension_of("/a/b.tar.GZ"), Some("GZ".to_string()));
    assert_eq!(extension_of("/a/.hidden"), None);
    assert_eq!(extension_of("/a/file."), Some(String::new()));
    assert!(is_supported_source_extension("m4v"));
    assert!(!is_supported_source_extension("txt"));
    assert!(observed_entry_is_in_scope(&observed("reports/x.PDF", 1, None), &r));
    let only_png = rules(&[], &[], &["png"]);
    assert_eq!(
        out_of_scope_status_reason(&observed("x.pdf", 1, None), &only_png),
        ("out_of_scope".to_string(), Some("extension_filtered".to_string()))
    );
    assert_eq!(
        out_of_scope_status_reason(&observed("x.txt", 1, None), &only_png).1,
        Some("unsupported_type".to_string())
    );
    assert_eq!(
        out_of_scope_status_reason(&observed("other/x.pdf", 1, None), &r).1,
        Some("rule_excluded".to_string())
    );
    assert_eq!(
        out_of_scope_status_reason(&observed("x.png", 1, None), &only_png).1,
        Some("outside_coverage".to_string())
    );
    let entries = vec![
        ("a.pdf".to_string(), observed("a.pdf", 1, None)),
        ("b.txt".to_string(), observed("b.txt", 1, None)),
        ("c.png".to_string(), observed("c.png", 1, None)),
    ];
    assert_eq!(count_matched_observed_entries(&entries, &rules(&[], &[], &[])), 2);
}

#[test]
fn diffs_report_changed_paths() {
    let previous = vec![
        ("a".to_string(), observed("a", 1, Some(10))),
        ("b".to_string(), observed("b", 2, Some(20))),
    ];
    let current = vec![
        ("b".to_string(), observed("b", 2, Some(21))),
        ("c".to_string(), observed("c", 3, None)),
    ];
    assert_eq!(diff_observed_entries(&previous, &current), strings(&["a", "b", "c"]));
    assert!(diff_observed_entries(&previous, &previous).is_empty());
}

#[test]
fn refresh_plans_stale_and_vanished_paths() {
    let plan = SourceActionPlan {
        library_id: "lib".to_string(),
        action: SourceActionKind::Refresh,
        target_root_ids: strings(&["root"]),
        changed_paths_by_root: Vec::new(),
    };
    let candidates = vec![
        ("a.pdf".to_string(), observed("a.pdf", 5, Some(1))),
        ("b.pdf".to_string(), observed("b.pdf", 6, Some(2))),
    ];
    let existing = vec![
        ("a.pdf".to_string(), source(Some("root"), "active", Some(5), Some(1))),
        ("b.pdf".to_string(), source(Some("root"), "active", Some(7), Some(2))),
        ("z.pdf".to_string(), source(Some("root"), "active", Some(1), None)),
    ];
    assert_eq!(
        planned_source_action_paths(&plan, "root", &candidates, &existing),
        strings(&["b.pdf", "z.pdf"])
    );
    let rescan = SourceActionPlan { action: SourceActionKind::Rescan, ..plan };
    assert_eq!(
        planned_source_action_paths(&rescan, "root", &candidates, &existing),
        strings(&["a.pdf", "b.pdf", "z.pdf"])
    );
    let known = SourceActionPlan {
        library_id: "lib".to_string(),
        action: SourceActionKind::Refresh,
        target_root_ids: Vec::new(),
        changed_paths_by_root: vec![("root".to_string(), strings(&["q.pdf"]))],
    };
    assert_eq!(planned_source_action_paths(&known, "root", &candidates, &existing), strings(&["q.pdf"]));
}

#[test]
fn source_counts_and_invalidation() {
    let sources = vec![
        ("1".to_string(), source(Some("root"), "active", None, None)),
        ("2".to_string(), source(Some("root"), "out_of_scope", None, None)),
        ("3".to_string(), source(Some("other"), "active", None, None)),
        ("4".to_string(), source(None, "active", None, None)),
    ];
    assert_eq!(count_sources_for_root(&sources, "root"), (1, 1));
    let s = invalidated_source_record(
        source(Some("root"), "active", Some(1), Some(2)),
        "missing",
        Some("deleted".to_string()),
        None,
        None,
    );
    assert_eq!(s.status, "missing");
    assert_eq!(s.status_reason.as_deref(), Some("deleted"));
    assert!(s.asset_ids.is_empty());
    assert_eq!(s.observed_size_bytes, None);
    assert_eq!(s.page_count, Some(3));
}

#[test]
fn string_filters_read_strings_and_arrays() {
    let filters = Json::Object(vec![
        ("kind".to_string(), Json::Str("image".to_string())),
        (
            "paths".to_string(),
            Json::Array(vec![
                Json::Str("b".to_string()),
                Json::Number("1".to_string()),
                Json::Str("a".to_string()),
                Json::Str("b".to_string()),
            ]),
        ),
        ("empty".to_string(), Json::Array(vec![Json::Null])),
    ]);
    assert_eq!(read_string_filter(Some(&filters), "kind"), Some(strings(&["image"])));
    assert_eq!(read_string_filter(Some(&filters), "paths"), Some(strings(&["a", "b"])));
    assert_eq!(read_string_filter(Some(&filters), "empty"), None);
    assert_eq!(read_string_filter(Some(&filters), "missing"), None);
    assert_eq!(read_string_filter(None, "kind"), None);
}
