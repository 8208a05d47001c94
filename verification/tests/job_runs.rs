use fauni_search::job_runs::{
    import_job_outcome, source_action_job_outcome, source_run_step, start_source_run, JobTally, SourceRunAction,
    SourceRunEvent,
};
use fauni_search::model::{SourceActionKind, SourceActionSummary, VectorSpaceBatch};

fn busy_tally() -> JobTally {
    let mut t = JobTally::new();
    t.record_indexed(3, &vec!["vs-b".to_string(), "vs-a".to_string()]);
    t.record_committed();
    t.record_indexed(2, &vec!["vs-a".to_string()]);
    t.record_committed();
    t
}

#[test]
fn tally_keeps_a_sorted_set_of_vector_spaces() {
    let t = busy_tally();
    assert_eq!(t.activated_vector_spaces, vec!["vs-a", "vs-b"]);
    assert_eq!(t.indexed_units, 5);
    assert_eq!(t.committed_sources, 2);
}

#[test]
fn import_job_outcomes_follow_the_tally() {
    let t = busy_tally();
    let done = import_job_outcome(false, 4, &t);
    assert_eq!((done.status.as_str(), done.phase.as_str(), done.completed), ("completed", "activated", 4));
    assert_eq!(
        done.summary,
        "Accepted 4 path(s); activated 2 source(s) and indexed 5 unit(s) across 2 vector space(s)."
    );
    let canceled = import_job_outcome(true, 4, &t);
    assert_eq!(canceled.status, "canceled");
    assert_eq!(canceled.completed, 2);
    assert_eq!(canceled.summary, "Import canceled after activating 2 source(s) across 2 vector space(s).");
    let early = import_job_outcome(true, 4, &JobTally::new());
    assert_eq!(early.summary, "Import canceled before any source-level activation.");
    assert!(early.activated_vector_spaces.is_empty());

    let mut t = busy_tally();
    t.record_failure("s9", "embedding failed");
    t.record_failure("s10", "commit failed");
    let failed = import_job_outcome(false, 4, &t);
    assert_eq!((failed.status.as_str(), failed.phase.as_str(), failed.completed), ("failed", "failed", 2));
    assert_eq!(
        failed.summary,
        "Accepted 4 path(s); activated 2 source(s), indexed 5 unit(s), and encountered 2 failure(s): source s9: embedding failed; source s10: commit failed"
    );
}

#[test]
fn source_action_job_outcomes_follow_the_tally() {
    let summary = SourceActionSummary {
        scanned_roots: 1,
        observed_files: 3,
        matched_files: 2,
        activated_sources: 2,
        invalidated_sources: 0,
        out_of_scope_sources: 1,
        indexing_units: 5,
        degraded_roots: 0,
    };
    let batches = vec![
        VectorSpaceBatch { vector_space_id: "vs-a".to_string(), unit_count: 5 },
        VectorSpaceBatch { vector_space_id: "vs-z".to_string(), unit_count: 0 },
    ];
    let t = busy_tally();
    let done = source_action_job_outcome(SourceActionKind::Rescan, false, 1, &summary, &batches, &t);
    assert_eq!(done.status, "completed");
    assert_eq!(done.activated_vector_spaces, vec!["vs-a"]);
    assert_eq!(
        done.summary,
        "rescan 1 source root(s); observed 3 file(s), matched 2 file(s), activated 2, invalidated 0, out_of_scope 1, indexed 5 unit(s)."
    );
    let canceled = source_action_job_outcome(SourceActionKind::Refresh, true, 1, &summary, &batches, &t);
    assert_eq!(canceled.summary, "refresh canceled: Canceled after activating 2 source(s) and indexing 5 unit(s).");
    assert!(canceled.apply_structured_changes);
    let early = source_action_job_outcome(SourceActionKind::Refresh, true, 1, &summary, &batches, &JobTally::new());
    assert_eq!(early.summary, "refresh canceled: Canceled before activating any source updates.");
    assert!(!early.apply_structured_changes);
    let mut t = busy_tally();
    t.record_failure("s1", "boom");
    let failed = source_action_job_outcome(SourceActionKind::Rebuild, false, 1, &summary, &batches, &t);
    assert_eq!(
        failed.summary,
        "rebuild partially failed: activated 2 source(s), indexed 5 unit(s), and encountered 1 failure(s): source s1: boom"
    );
    assert_eq!(failed.completed, 2);
}

#[test]
fn a_failed_index_skips_the_commit_and_cancel_stops_the_run() {
    let ids = vec!["s1".to_string(), "s2".to_string(), "s3".to_string()];
    let (mut run, action) = start_source_run(ids.len());
    assert_eq!(action, SourceRunAction::CheckCancel);
    let a = source_run_step(&mut run, &ids, SourceRunEvent::CancelChecked(false));
    assert_eq!(a, SourceRunAction::IndexSource(0));
    let a = source_run_step(&mut run, &ids, SourceRunEvent::Indexed(Err("embed down".to_string())));
    assert_eq!(a, SourceRunAction::CheckCancel);
    let a = source_run_step(&mut run, &ids, SourceRunEvent::CancelChecked(false));
    assert_eq!(a, SourceRunAction::IndexSource(1));
    let a = source_run_step(&mut run, &ids, SourceRunEvent::Indexed(Ok((4, vec!["vs".to_string()]))));
    assert_eq!(a, SourceRunAction::CommitSource(1));
    let a = source_run_step(&mut run, &ids, SourceRunEvent::Committed(Ok(())));
    assert_eq!(a, SourceRunAction::CheckCancel);
    let a = source_run_step(&mut run, &ids, SourceRunEvent::CancelChecked(true));
    assert_eq!(a, SourceRunAction::Finish);
    assert_eq!(run.tally.failures, vec!["source s1: embed down"]);
    assert_eq!(run.tally.committed_sources, 1);
    assert_eq!(run.tally.indexed_units, 4);
    let (_, a) = start_source_run(0);
    assert_eq!(a, SourceRunAction::Finish);
}
