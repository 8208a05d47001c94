use fauni_search::error::IoErrorKind;
use fauni_search::model::SourceRecord;
use fauni_search::persistence::SourceRow;
use fauni_search::snapshot_load::{
    find_library, library_buckets, load_libraries, load_source_roots, load_sources,
    place_rows, DurableSourceRootRecord, LibraryRecords, LibraryRow, PlacedRow, SourceRootRow,
};
use fauni_search::source_roots::SourceRootRulesPayload;

fn library_row(id: &str, archived: Option<i64>) -> LibraryRow {
    LibraryRow {
        library_id: id.to_owned(),
        display_name: format!("Library {id}"),
        lifecycle_state: "active".to_owned(),
        archived_at_ms: archived,
    }
}

fn source_row(library: &str, id: &str, page_count: Option<i64>) -> SourceRow {
    SourceRow {
        library_id: library.to_owned(),
        source_id: id.to_owned(),
        source_content_id: format!("content-{id}"),
        source_root_id: None,
        source_root_path: None,
        source_uri: format!("file:///data/{id}.pdf"),
        relative_path: None,
        source_type: "pdf".to_owned(),
        media_type: "application/pdf".to_owned(),
        kind: "document".to_owned(),
        status: "ready".to_owned(),
        status_reason: None,
        page_count,
        duration_ms: None,
        observed_size_bytes: Some(10),
        observed_modified_at_ms: None,
    }
}

fn rules() -> SourceRootRulesPayload {
    SourceRootRulesPayload {
        include_globs: vec!["**/*".to_owned()],
        exclude_globs: Vec::new(),
        include_extensions: vec!["pdf".to_owned()],
    }
}

fn record<'a, T>(bucket: &'a LibraryRecords<T>, id: &str) -> Option<&'a T> {
    bucket.records.iter().find(|(k, _)| k == id).map(|(_, v)| v)
}

#[test]
fn libraries_load_in_row_order() {
    let loaded = load_libraries("/tmp/state.db", vec![
        library_row("lib_b", None),
        library_row("lib_a", Some(1_700_000_000_000)),
    ])
    .unwrap();
    assert_eq!(loaded.order, vec!["lib_b".to_owned(), "lib_a".to_owned()]);
    let a = &loaded.libraries.iter().find(|(k, _)| k == "lib_a").unwrap().1;
    assert_eq!(a.display_name, "Library lib_a");
    assert_eq!(a.archived_at_ms, Some(1_700_000_000_000));
}

#[test]
fn library_with_negative_archive_time_is_refused() {
    let err = load_libraries("/tmp/state.db", vec![library_row("lib_a", None), library_row("lib_b", Some(-1))])
        .unwrap_err();
    assert_eq!(err.kind, IoErrorKind::InvalidData);
    assert_eq!(
        err.message,
        "Invalid durable state store /tmp/state.db: libraries.archived_at_ms must be non-negative"
    );
}

#[test]
fn sources_go_to_their_library() {
    let loaded = load_libraries("/s.db", vec![library_row("lib_a", None), library_row("lib_b", None)]).unwrap();
    let mut buckets: Vec<LibraryRecords<SourceRecord>> = library_buckets(&loaded.libraries);
    assert_eq!(buckets.len(), 2);
    load_sources("/s.db", &mut buckets, vec![
        source_row("lib_b", "src_1", Some(3)),
        source_row("lib_a", "src_2", None),
        source_row("lib_b", "src_3", None),
    ])
    .unwrap();
    assert_eq!(buckets[0].order, vec!["src_2".to_owned()]);
    assert_eq!(buckets[1].order, vec!["src_1".to_owned(), "src_3".to_owned()]);
    let first = record(&buckets[1], "src_1").unwrap();
    assert_eq!(first.source_path, "/data/src_1.pdf");
    assert_eq!(first.page_count, Some(3));
    assert!(first.asset_ids.is_empty());
}

#[test]
fn source_of_a_missing_library_is_refused() {
    let mut buckets: Vec<LibraryRecords<SourceRecord>> = vec![LibraryRecords {
        library_id: "lib_a".to_owned(),
        order: Vec::new(),
        records: Vec::new(),
    }];
    let err = load_sources("/s.db", &mut buckets, vec![
        source_row("lib_a", "src_1", None),
        source_row("lib_x", "src_2", None),
    ])
    .unwrap_err();
    assert_eq!(
        err.message,
        "Invalid durable state store /s.db: source src_2 references missing library lib_x"
    );
    // The rows before the refused one were placed.
    assert_eq!(buckets[0].order, vec!["src_1".to_owned()]);
}

#[test]
fn source_out_of_range_is_refused_before_its_library_is_checked() {
    let mut buckets: Vec<LibraryRecords<SourceRecord>> = Vec::new();
    let err = load_sources("/s.db", &mut buckets, vec![source_row("lib_x", "src_1", Some(-2))]).unwrap_err();
    assert_eq!(err.message, "Invalid durable state store /s.db: sources.page_count must be non-negative");
}

#[test]
fn source_roots_decode_their_flag_and_rules() {
    let mut buckets: Vec<LibraryRecords<DurableSourceRootRecord>> = vec![LibraryRecords {
        library_id: "lib_a".to_owned(),
        order: Vec::new(),
        records: Vec::new(),
    }];
    load_source_roots("/s.db", &mut buckets, vec![SourceRootRow {
        library_id: "lib_a".to_owned(),
        source_root_id: "root_1".to_owned(),
        root_path: "/data".to_owned(),
        enabled: 1,
        rules: Ok(rules()),
    }])
    .unwrap();
    let root = record(&buckets[0], "root_1").unwrap();
    assert!(root.enabled);
    assert_eq!(root.root_path, "/data");
    assert_eq!(root.rules.include_extensions, vec!["pdf".to_owned()]);
}

#[test]
fn source_root_with_bad_flag_or_rules_is_refused() {
    let mut buckets: Vec<LibraryRecords<DurableSourceRootRecord>> = Vec::new();
    let err = load_source_roots("/s.db", &mut buckets, vec![SourceRootRow {
        library_id: "lib_a".to_owned(),
        source_root_id: "root_1".to_owned(),
        root_path: "/data".to_owned(),
        enabled: 2,
        rules: Ok(rules()),
    }])
    .unwrap_err();
    assert_eq!(err.message, "Invalid durable state store /s.db: source_roots.enabled must be 0 or 1");
    let err = load_source_roots("/s.db", &mut buckets, vec![SourceRootRow {
        library_id: "lib_a".to_owned(),
        source_root_id: "root_1".to_owned(),
        root_path: "/data".to_owned(),
        enabled: 0,
        rules: Err("expected value at line 1 column 1".to_owned()),
    }])
    .unwrap_err();
    assert_eq!(
        err.message,
        "Invalid durable state store /s.db: failed to decode source_roots.rules_json JSON payload: expected value at line 1 column 1"
    );
}

#[test]
fn later_row_with_same_id_replaces_the_record() {
    let mut buckets: Vec<LibraryRecords<u32>> = vec![LibraryRecords {
        library_id: "lib".to_owned(),
        order: Vec::new(),
        records: Vec::new(),
    }];
    place_rows("/s.db", "thing", &mut buckets, vec![
        PlacedRow { library_id: "lib".to_owned(), id: "a".to_owned(), record: Ok(1) },
        PlacedRow { library_id: "lib".to_owned(), id: "a".to_owned(), record: Ok(2) },
    ])
    .unwrap();
    assert_eq!(buckets[0].order, vec!["a".to_owned(), "a".to_owned()]);
    assert_eq!(record(&buckets[0], "a"), Some(&2));
    assert_eq!(find_library(&buckets, "lib"), Some(0));
    assert_eq!(find_library(&buckets, "other"), None);
}
