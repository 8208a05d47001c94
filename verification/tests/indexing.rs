use fauni_search::indexing::{indexing_step, start_indexing, IndexEvent, IndexPhase, IndexWork};

#[test]
fn no_units_finish_at_once() {
    let (run, progress, work) = start_indexing("vs1", "import", 0, 8);
    assert_eq!(run.phase, IndexPhase::Done);
    assert!(progress.is_empty());
    assert!(matches!(work, IndexWork::Finished { completed: 0 }));
}

#[test]
fn units_are_embedded_and_written_batch_by_batch() {
    let (run, progress, work) = start_indexing("vs1", "rescan", 20, 8);
    assert_eq!(run.total_batches, 3);
    assert_eq!(run.collection_name, "vector_space_vs1");
    assert_eq!(progress.len(), 1);
    assert_eq!(progress[0].stage, "encode");
    assert_eq!(progress[0].message, "Encoding source-level batch 1/3 (8 unit(s)) for rescan.");
    assert!(matches!(work, IndexWork::Embed { start: 0, end: 8 }));

    let (run, progress, work) = indexing_step(run, IndexEvent::Embedded { vector_size: 128 });
    assert!(progress.is_empty());
    assert!(matches!(work, IndexWork::EnsureNamespace { vector_size: 128 }));

    let (run, progress, work) =
        indexing_step(run, IndexEvent::NamespaceReady { collection: "vs1__active".to_owned() });
    assert_eq!(progress[0].message, "Writing source-level batch 1/3 (8 unit(s)) into active vector-space storage.");
    match work {
        IndexWork::Upsert { collection, start, end } => {
            assert_eq!(collection, "vs1__active");
            assert_eq!((start, end), (0, 8));
        }
        other => panic!("unexpected work {other:?}"),
    }

    let (run, progress, work) = indexing_step(run, IndexEvent::Upserted);
    assert_eq!(progress.len(), 2);
    assert_eq!(progress[0].completed, 8);
    assert_eq!(progress[0].message, "Wrote source-level batch 1/3 (8 unit(s)) into active vector-space storage.");
    assert_eq!(progress[1].message, "Encoding source-level batch 2/3 (8 unit(s)) for rescan.");
    assert!(matches!(work, IndexWork::Embed { start: 8, end: 16 }));

    // The namespace is made once: later batches go straight to their write.
    let (run, _, work) = indexing_step(run, IndexEvent::Embedded { vector_size: 128 });
    assert!(matches!(work, IndexWork::Upsert { start: 8, end: 16, .. }));
    let (run, _, work) = indexing_step(run, IndexEvent::Upserted);
    assert!(matches!(work, IndexWork::Embed { start: 16, end: 20 }));
    let (run, progress, work) = indexing_step(run, IndexEvent::Embedded { vector_size: 128 });
    assert_eq!(progress[0].message, "Writing source-level batch 3/3 (4 unit(s)) into active vector-space storage.");
    assert!(matches!(work, IndexWork::Upsert { start: 16, end: 20, .. }));
    let (run, progress, work) = indexing_step(run, IndexEvent::Upserted);
    assert_eq!(progress.len(), 1);
    assert_eq!(progress[0].completed, 20);
    assert!(matches!(work, IndexWork::Finished { completed: 20 }));
    assert_eq!(run.phase, IndexPhase::Done);
}

#[test]
fn unexpected_event_asks_for_the_same_work() {
    let (run, _, _) = start_indexing("vs2", "import", 3, 8);
    let (run, progress, work) = indexing_step(run, IndexEvent::Upserted);
    assert!(progress.is_empty());
    assert_eq!(run.phase, IndexPhase::AwaitEmbedding);
    assert!(matches!(work, IndexWork::Embed { start: 0, end: 3 }));
}

fn unit_of(id: &str, source: &str) -> fauni_search::shared_load::UnitRecord {
    fauni_search::shared_load::UnitRecord {
        id: id.to_owned(),
        asset_id: "asset".to_owned(),
        content_id: String::new(),
        point_id: 1,
        source_id: source.to_owned(),
        source_path: String::new(),
        source_type: String::new(),
        asset_type: String::new(),
        unit_type: "page".to_owned(),
        derivation_signature: "sig".to_owned(),
        locator: fauni_search::json::Json::Null,
        neighbor_context: fauni_search::json::Json::Null,
    }
}

#[test]
fn only_the_sources_units_are_indexed_per_vector_space() {
    let batches = vec![
        ("vs_a".to_owned(), vec![unit_of("u1", "src_1"), unit_of("u2", "src_2"), unit_of("u3", "src_1")]),
        ("vs_b".to_owned(), vec![unit_of("u4", "src_2")]),
    ];
    let kept = fauni_search::indexing::indexed_units_by_vector_space(batches, "src_1");
    assert_eq!(kept.len(), 1);
    assert_eq!(kept[0].0, "vs_a");
    let ids: Vec<&str> = kept[0].1.iter().map(|u| u.id.as_str()).collect();
    assert_eq!(ids, vec!["u1", "u3"]);
}
