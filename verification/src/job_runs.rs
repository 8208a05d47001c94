use vstd::prelude::*;
use crate::envelope::{join_strings, joined, views};
use crate::json::string_views;
use crate::model::{
    action_name, completed_summary, nonempty_batch_spaces, ImportJobOutcome, SourceActionJobOutcome, SourceActionKind,
    SourceActionSummary, VectorSpaceBatch,
};
use crate::sorted::{insert_sorted, is_sorted_set, set_of};
use crate::text::{append_chars, append_str, chars_of, decimal, decimal_chars, string_of};

verus! {

/// What a job that imports or updates sources one by one has done so far: the vector spaces
/// it activated (a sorted set), the units it indexed, the sources it committed, and one line
/// per source that failed.
#[derive(Debug)]
pub struct JobTally {
    pub activated_vector_spaces: Vec<String>,
    pub indexed_units: usize,
    pub committed_sources: usize,
    pub failures: Vec<String>,
}

impl JobTally {
    /// The tally's invariant: the activated vector spaces form a sorted set.
    pub open spec fn wf(self) -> bool {
        is_sorted_set(self.activated_vector_spaces@)
    }

    /// A job that has done nothing yet.
    pub fn new() -> (r: JobTally)
        ensures
            r.wf(),
            r.activated_vector_spaces@.len() == 0,
            r.indexed_units == 0,
            r.committed_sources == 0,
            r.failures@.len() == 0,
    {
        let r = JobTally { activated_vector_spaces: Vec::new(), indexed_units: 0, committed_sources: 0, failures: Vec::new() };
        assert(string_views(r.activated_vector_spaces@) =~= Seq::<Seq<char>>::empty());
        r
    }

    /// A source's units were indexed: `count` more units, and its vector spaces activated.
    pub fn record_indexed(&mut self, count: usize, vector_spaces: &Vec<String>)
        requires
            old(self).wf(),
            old(self).indexed_units + count <= usize::MAX,
        ensures
            final(self).wf(),
            set_of(final(self).activated_vector_spaces@) == set_of(old(self).activated_vector_spaces@) + string_views(
                vector_spaces@,
            ).to_set(),
            final(self).indexed_units == old(self).indexed_units + count,
            final(self).committed_sources == old(self).committed_sources,
            final(self).failures == old(self).failures,
    {
        self.indexed_units = self.indexed_units + count;
        let ghost start = set_of(self.activated_vector_spaces@);
        let mut i: usize = 0;
        while i < vector_spaces.len()
            invariant
                i <= vector_spaces.len(),
                is_sorted_set(self.activated_vector_spaces@),
                set_of(self.activated_vector_spaces@) == start + string_views(vector_spaces@.take(i as int)).to_set(),
                self.indexed_units == old(self).indexed_units + count,
                self.committed_sources == old(self).committed_sources,
                self.failures == old(self).failures,
            decreases vector_spaces.len() - i,
        {
            let item = vector_spaces[i].clone();
            insert_sorted(&mut self.activated_vector_spaces, item);
            proof {
                let prefix = string_views(vector_spaces@.take(i as int));
                assert(string_views(vector_spaces@.take(i + 1)) =~= prefix.push(vector_spaces@[i as int]@));
                prefix.lemma_push_to_set_commute(vector_spaces@[i as int]@);
                assert(set_of(self.activated_vector_spaces@) =~= start + string_views(vector_spaces@.take(i + 1)).to_set());
            }
            i += 1;
        }
        assert(vector_spaces@.take(vector_spaces.len() as int) =~= vector_spaces@);
    }

    /// A source failed (to index or to commit): the line `source <id>: <message>` is kept.
    pub fn record_failure(&mut self, source_id: &str, message: &str)
        ensures
            views(final(self).failures@) == views(old(self).failures@).push("source "@ + source_id@ + ": "@ + message@),
            final(self).activated_vector_spaces == old(self).activated_vector_spaces,
            final(self).indexed_units == old(self).indexed_units,
            final(self).committed_sources == old(self).committed_sources,
    {
        let mut m = chars_of("source ");
        append_str(&mut m, source_id);
        append_str(&mut m, ": ");
        append_str(&mut m, message);
        let line = string_of(&m);
        let ghost before = views(self.failures@);
        self.failures.push(line);
        assert(views(self.failures@) =~= before.push(line@));
    }

    /// A source's records were committed.
    pub fn record_committed(&mut self)
        requires
            old(self).committed_sources < usize::MAX,
        ensures
            final(self).committed_sources == old(self).committed_sources + 1,
            final(self).activated_vector_spaces == old(self).activated_vector_spaces,
            final(self).indexed_units == old(self).indexed_units,
            final(self).failures == old(self).failures,
    {
        self.committed_sources = self.committed_sources + 1;
    }
}

/// The summary of an import that activated `c` sources across `n` vector spaces before it
/// was canceled.
pub open spec fn import_canceled_after(c: nat, n: nat) -> Seq<char> {
    "Import canceled after activating "@ + decimal(c) + " source(s) across "@ + decimal(n) + " vector space(s)."@
}

/// The summary of an import that went through.
pub open spec fn import_completed_summary(accepted: nat, c: nat, units: nat, n: nat) -> Seq<char> {
    "Accepted "@ + decimal(accepted) + " path(s); activated "@ + decimal(c) + " source(s) and indexed "@ + decimal(units)
        + " unit(s) across "@ + decimal(n) + " vector space(s)."@
}

/// The summary of an import in which some sources failed.
pub open spec fn import_failed_summary(accepted: nat, c: nat, units: nat, failures: Seq<Seq<char>>) -> Seq<char> {
    "Accepted "@ + decimal(accepted) + " path(s); activated "@ + decimal(c) + " source(s), indexed "@ + decimal(units)
        + " unit(s), and encountered "@ + decimal(failures.len()) + " failure(s): "@ + joined(failures, "; "@)
}

/// How an import job ends, from whether it was canceled, the number of accepted paths and
/// its tally: canceled (keeping its activations when some source was committed), else
/// completed when no source failed, else failed with its activations.
pub fn import_job_outcome(canceled: bool, accepted: usize, t: &JobTally) -> (r: ImportJobOutcome)
    ensures
        canceled && t.committed_sources == 0 ==> {
            &&& r.status@ == "canceled"@ && r.phase@ == "canceled"@ && r.completed == 0
            &&& r.activated_vector_spaces@.len() == 0
            &&& r.summary@ == "Import canceled before any source-level activation."@
        },
        canceled && t.committed_sources > 0 ==> {
            &&& r.status@ == "canceled"@ && r.phase@ == "canceled"@ && r.completed == t.committed_sources
            &&& string_views(r.activated_vector_spaces@) == string_views(t.activated_vector_spaces@)
            &&& r.summary@ == import_canceled_after(
                t.committed_sources as nat,
                t.activated_vector_spaces@.len() as nat,
            )
        },
        !canceled && t.failures@.len() == 0 ==> {
            &&& r.status@ == "completed"@ && r.phase@ == "activated"@ && r.completed == accepted
            &&& string_views(r.activated_vector_spaces@) == string_views(t.activated_vector_spaces@)
            &&& r.summary@ == import_completed_summary(
                accepted as nat,
                t.committed_sources as nat,
                t.indexed_units as nat,
                t.activated_vector_spaces@.len() as nat,
            )
        },
        !canceled && t.failures@.len() > 0 ==> {
            &&& r.status@ == "failed"@ && r.phase@ == "failed"@ && r.completed == t.committed_sources
            &&& string_views(r.activated_vector_spaces@) == string_views(t.activated_vector_spaces@)
            &&& r.summary@ == import_failed_summary(
                accepted as nat,
                t.committed_sources as nat,
                t.indexed_units as nat,
                views(t.failures@),
            )
        },
{
    let spaces = copy_strings(&t.activated_vector_spaces);
    if canceled {
        if t.committed_sources == 0 {
            ImportJobOutcome::canceled("Import canceled before any source-level activation.".to_owned(), 0)
        } else {
            let mut m = chars_of("Import canceled after activating ");
            append_chars(&mut m, &decimal_chars(t.committed_sources as u64));
            append_str(&mut m, " source(s) across ");
            append_chars(&mut m, &decimal_chars(t.activated_vector_spaces.len() as u64));
            append_str(&mut m, " vector space(s).");
            ImportJobOutcome::canceled_with_activations(string_of(&m), t.committed_sources, spaces)
        }
    } else if t.failures.len() == 0 {
        let mut m = chars_of("Accepted ");
        append_chars(&mut m, &decimal_chars(accepted as u64));
        append_str(&mut m, " path(s); activated ");
        append_chars(&mut m, &decimal_chars(t.committed_sources as u64));
        append_str(&mut m, " source(s) and indexed ");
        append_chars(&mut m, &decimal_chars(t.indexed_units as u64));
        append_str(&mut m, " unit(s) across ");
        append_chars(&mut m, &decimal_chars(t.activated_vector_spaces.len() as u64));
        append_str(&mut m, " vector space(s).");
        ImportJobOutcome::completed(string_of(&m), accepted, spaces)
    } else {
        let mut m = chars_of("Accepted ");
        append_chars(&mut m, &decimal_chars(accepted as u64));
        append_str(&mut m, " path(s); activated ");
        append_chars(&mut m, &decimal_chars(t.committed_sources as u64));
        append_str(&mut m, " source(s), indexed ");
        append_chars(&mut m, &decimal_chars(t.indexed_units as u64));
        append_str(&mut m, " unit(s), and encountered ");
        append_chars(&mut m, &decimal_chars(t.failures.len() as u64));
        append_str(&mut m, " failure(s): ");
        let all = join_strings(&t.failures, "; ");
        append_str(&mut m, all.as_str());
        ImportJobOutcome::failed_with_activations("failed", string_of(&m), t.committed_sources, spaces)
    }
}

fn copy_strings(v: &Vec<String>) -> (r: Vec<String>)
    ensures
        string_views(r@) == string_views(v@),
{
    let mut r: Vec<String> = Vec::new();
    let mut i: usize = 0;
    while i < v.len()
        invariant
            i <= v.len(),
            string_views(r@) == string_views(v@.take(i as int)),
        decreases v.len() - i,
    {
        let ghost before = string_views(r@);
        let s = v[i].clone();
        r.push(s);
        assert(string_views(r@) =~= before.push(s@));
        assert(string_views(v@.take(i + 1)) =~= string_views(v@.take(i as int)).push(v@[i as int]@));
        i += 1;
    }
    assert(v@.take(v.len() as int) =~= v@);
    r
}

/// The message of a source action canceled after it activated `c` sources and indexed
/// `units` units.
pub open spec fn action_canceled_after(c: nat, units: nat) -> Seq<char> {
    "Canceled after activating "@ + decimal(c) + " source(s) and indexing "@ + decimal(units) + " unit(s)."@
}

/// The message of a source action in which some sources failed.
pub open spec fn action_failed_message(c: nat, units: nat, failures: Seq<Seq<char>>) -> Seq<char> {
    "activated "@ + decimal(c) + " source(s), indexed "@ + decimal(units) + " unit(s), and encountered "@ + decimal(
        failures.len(),
    ) + " failure(s): "@ + joined(failures, "; "@)
}

/// How a prepared source action job ends, from whether it was canceled, what was prepared
/// (the accepted roots, the summary and the batches) and its tally: canceled (keeping its
/// structured changes when some source was committed), else completed when no source
/// failed, else partially failed.
pub fn source_action_job_outcome(
    action: SourceActionKind,
    canceled: bool,
    accepted_root_count: usize,
    summary: &SourceActionSummary,
    batches: &Vec<VectorSpaceBatch>,
    t: &JobTally,
) -> (r: SourceActionJobOutcome)
    ensures
        canceled && t.committed_sources == 0 ==> {
            &&& r.status@ == "canceled"@ && r.phase@ == "canceled"@ && r.completed == 0
            &&& r.activated_vector_spaces@.len() == 0 && !r.apply_structured_changes
            &&& r.summary@ == action_name(action) + " canceled: "@ + "Canceled before activating any source updates."@
        },
        canceled && t.committed_sources > 0 ==> {
            &&& r.status@ == "canceled"@ && r.phase@ == "canceled"@ && r.completed == accepted_root_count
            &&& string_views(r.activated_vector_spaces@) == string_views(t.activated_vector_spaces@)
            &&& r.apply_structured_changes
            &&& r.summary@ == action_name(action) + " canceled: "@ + action_canceled_after(
                t.committed_sources as nat,
                t.indexed_units as nat,
            )
        },
        !canceled && t.failures@.len() == 0 ==> {
            &&& r.status@ == "completed"@ && r.phase@ == "activated"@ && r.completed == accepted_root_count
            &&& is_sorted_set(r.activated_vector_spaces@)
            &&& set_of(r.activated_vector_spaces@) == nonempty_batch_spaces(batches@)
            &&& r.apply_structured_changes
            &&& r.summary@ == completed_summary(action, *summary)
        },
        !canceled && t.failures@.len() > 0 ==> {
            &&& r.status@ == "failed"@ && r.phase@ == "failed"@ && r.completed == t.committed_sources
            &&& string_views(r.activated_vector_spaces@) == string_views(t.activated_vector_spaces@)
            &&& r.apply_structured_changes
            &&& r.summary@ == action_name(action) + " partially failed: "@ + action_failed_message(
                t.committed_sources as nat,
                t.indexed_units as nat,
                views(t.failures@),
            )
        },
{
    if canceled {
        if t.committed_sources == 0 {
            SourceActionJobOutcome::canceled(action, 0, "Canceled before activating any source updates.")
        } else {
            let mut m = chars_of("Canceled after activating ");
            append_chars(&mut m, &decimal_chars(t.committed_sources as u64));
            append_str(&mut m, " source(s) and indexing ");
            append_chars(&mut m, &decimal_chars(t.indexed_units as u64));
            append_str(&mut m, " unit(s).");
            let text = string_of(&m);
            SourceActionJobOutcome::canceled_with_structured_changes(
                action,
                accepted_root_count,
                copy_strings(&t.activated_vector_spaces),
                text.as_str(),
            )
        }
    } else if t.failures.len() == 0 {
        SourceActionJobOutcome::completed(action, accepted_root_count, summary, batches)
    } else {
        let mut m = chars_of("activated ");
        append_chars(&mut m, &decimal_chars(t.committed_sources as u64));
        append_str(&mut m, " source(s), indexed ");
        append_chars(&mut m, &decimal_chars(t.indexed_units as u64));
        append_str(&mut m, " unit(s), and encountered ");
        append_chars(&mut m, &decimal_chars(t.failures.len() as u64));
        append_str(&mut m, " failure(s): ");
        let all = join_strings(&t.failures, "; ");
        append_str(&mut m, all.as_str());
        let text = string_of(&m);
        SourceActionJobOutcome::failed_with_structured_changes(
            action,
            t.committed_sources,
            copy_strings(&t.activated_vector_spaces),
            text.as_str(),
        )
    }
}

/// Where a source-by-source job stands: about to check for cancellation before its next
/// source, waiting for that source to be indexed, waiting for it to be committed, or done.
#[derive(Debug, Clone, Copy, PartialEq, Eq, Structural)]
pub enum SourceRunPhase {
    BeforeSource,
    Indexing,
    Committing,
    Done,
}

/// A source-by-source job in progress: the source it is at, its phase and its tally.
#[derive(Debug)]
pub struct SourceRun {
    pub source_index: usize,
    pub phase: SourceRunPhase,
    pub tally: JobTally,
}

/// What the runner reports back.
#[derive(Debug)]
pub enum SourceRunEvent {
    /// Whether cancellation was requested.
    CancelChecked(bool),
    /// The units indexed and their vector spaces, or why indexing failed.
    Indexed(Result<(usize, Vec<String>), String>),
    /// Whether the source's records were committed, or why not.
    Committed(Result<(), String>),
}

/// What the runner does next.
#[derive(Debug, Clone, Copy, PartialEq, Eq, Structural)]
pub enum SourceRunAction {
    CheckCancel,
    IndexSource(usize),
    CommitSource(usize),
    Finish,
}

impl SourceRun {
    /// The run's invariant over `total` sources.
    pub open spec fn wf(self, total: nat) -> bool {
        &&& self.tally.wf()
        &&& self.tally.committed_sources <= self.source_index
        &&& self.phase != SourceRunPhase::Done ==> self.source_index < total
    }
}

/// The action that a phase asks of the runner.
pub open spec fn action_of(run: SourceRun) -> SourceRunAction {
    match run.phase {
        SourceRunPhase::BeforeSource => SourceRunAction::CheckCancel,
        SourceRunPhase::Indexing => SourceRunAction::IndexSource(run.source_index),
        SourceRunPhase::Committing => SourceRunAction::CommitSource(run.source_index),
        SourceRunPhase::Done => SourceRunAction::Finish,
    }
}

/// A job over `total` sources, before anything is done: it checks for cancellation before
/// the first source, or finishes at once when there is none.
pub fn start_source_run(total: usize) -> (r: (SourceRun, SourceRunAction))
    ensures
        r.0.wf(total as nat),
        r.0.source_index == 0,
        r.0.phase == (if total == 0 { SourceRunPhase::Done } else { SourceRunPhase::BeforeSource }),
        r.0.tally.activated_vector_spaces@.len() == 0 && r.0.tally.indexed_units == 0,
        r.0.tally.committed_sources == 0 && r.0.tally.failures@.len() == 0,
        r.1 == action_of(r.0),
{
    let phase = if total == 0 { SourceRunPhase::Done } else { SourceRunPhase::BeforeSource };
    let run = SourceRun { source_index: 0, phase, tally: JobTally::new() };
    let action = if total == 0 { SourceRunAction::Finish } else { SourceRunAction::CheckCancel };
    (run, action)
}

/// The event answers the action of the phase.
pub open spec fn event_fits(phase: SourceRunPhase, e: SourceRunEvent) -> bool {
    match phase {
        SourceRunPhase::BeforeSource => e is CancelChecked,
        SourceRunPhase::Indexing => e is Indexed,
        SourceRunPhase::Committing => e is Committed,
        SourceRunPhase::Done => false,
    }
}

/// One step of a source-by-source job, from the runner's report: a cancellation stops the
/// job before the next source; a source whose indexing failed is recorded as failed and its
/// commit is skipped; an indexed source is committed, and a failed commit is recorded as a
/// failure; after each source the job checks for cancellation again, until no source is
/// left.
pub fn source_run_step(run: &mut SourceRun, source_ids: &Vec<String>, event: SourceRunEvent) -> (action: SourceRunAction)
    requires
        old(run).wf(source_ids.len() as nat),
        event_fits(old(run).phase, event),
        event matches SourceRunEvent::Indexed(Ok((count, _))) ==> old(run).tally.indexed_units + count <= usize::MAX,
    ensures
        final(run).wf(source_ids.len() as nat),
        action == action_of(*final(run)),
        match event {
            SourceRunEvent::CancelChecked(canceled) => {
                &&& final(run).tally == old(run).tally
                &&& final(run).source_index == old(run).source_index
                &&& final(run).phase == if canceled { SourceRunPhase::Done } else { SourceRunPhase::Indexing }
            },
            SourceRunEvent::Indexed(Err(m)) => {
                let id = source_ids@[old(run).source_index as int]@;
                &&& views(final(run).tally.failures@) == views(old(run).tally.failures@).push("source "@ + id + ": "@ + m@)
                &&& final(run).tally.activated_vector_spaces == old(run).tally.activated_vector_spaces
                &&& final(run).tally.indexed_units == old(run).tally.indexed_units
                &&& final(run).tally.committed_sources == old(run).tally.committed_sources
                &&& final(run).source_index == old(run).source_index + 1
                &&& final(run).phase == if old(run).source_index + 1 < source_ids.len() {
                    SourceRunPhase::BeforeSource
                } else {
                    SourceRunPhase::Done
                }
            },
            SourceRunEvent::Indexed(Ok((count, spaces))) => {
                &&& set_of(final(run).tally.activated_vector_spaces@) == set_of(old(run).tally.activated_vector_spaces@)
                    + string_views(spaces@).to_set()
                &&& final(run).tally.indexed_units == old(run).tally.indexed_units + count
                &&& final(run).tally.committed_sources == old(run).tally.committed_sources
                &&& final(run).tally.failures == old(run).tally.failures
                &&& final(run).source_index == old(run).source_index
                &&& final(run).phase == SourceRunPhase::Committing
            },
            SourceRunEvent::Committed(c) => {
                &&& final(run).tally.activated_vector_spaces == old(run).tally.activated_vector_spaces
                &&& final(run).tally.indexed_units == old(run).tally.indexed_units
                &&& match c {
                    Ok(()) => final(run).tally.committed_sources == old(run).tally.committed_sources + 1
                        && final(run).tally.failures == old(run).tally.failures,
                    Err(m) => final(run).tally.committed_sources == old(run).tally.committed_sources && views(
                        final(run).tally.failures@,
                    ) == views(old(run).tally.failures@).push(
                        "source "@ + source_ids@[old(run).source_index as int]@ + ": "@ + m@,
                    ),
                }
                &&& final(run).source_index == old(run).source_index + 1
                &&& final(run).phase == if old(run).source_index + 1 < source_ids.len() {
                    SourceRunPhase::BeforeSource
                } else {
                    SourceRunPhase::Done
                }
            },
        },
{
    let i = run.source_index;
    match event {
        SourceRunEvent::CancelChecked(canceled) => {
            run.phase = if canceled { SourceRunPhase::Done } else { SourceRunPhase::Indexing };
        },
        SourceRunEvent::Indexed(Err(m)) => {
            run.tally.record_failure(source_ids[i].as_str(), m.as_str());
            run.source_index = i + 1;
            run.phase = if i + 1 < source_ids.len() { SourceRunPhase::BeforeSource } else { SourceRunPhase::Done };
        },
        SourceRunEvent::Indexed(Ok((count, spaces))) => {
            run.tally.record_indexed(count, &spaces);
            run.phase = SourceRunPhase::Committing;
        },
        SourceRunEvent::Committed(c) => {
            match c {
                Ok(()) => run.tally.record_committed(),
                Err(m) => run.tally.record_failure(source_ids[i].as_str(), m.as_str()),
            }
            run.source_index = i + 1;
            run.phase = if i + 1 < source_ids.len() { SourceRunPhase::BeforeSource } else { SourceRunPhase::Done };
        },
    }
    match run.phase {
        SourceRunPhase::BeforeSource => SourceRunAction::CheckCancel,
        SourceRunPhase::Indexing => SourceRunAction::IndexSource(run.source_index),
        SourceRunPhase::Committing => SourceRunAction::CommitSource(run.source_index),
        SourceRunPhase::Done => SourceRunAction::Finish,
    }
}

} // verus!
