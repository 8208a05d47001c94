use vstd::prelude::*;
use crate::qdrant::stable_vector_space_name;
use crate::shared_load::UnitRecord;
use crate::text::{append_chars, append_str, chars_of, decimal, decimal_chars, string_of};

verus! {

/// Where a run of indexing stands: which outside work it waits for.
#[derive(Clone, Copy, Debug, PartialEq, Eq, Structural)]
pub enum IndexPhase {
    AwaitEmbedding,
    AwaitNamespace,
    AwaitUpsert,
    Done,
}

/// Indexing a vector space's units, batch by batch: embed a batch, make sure the active
/// namespace exists (once, sized by the first vectors), write the batch's points.
#[derive(Debug)]
pub struct IndexRun {
    pub vector_space_id: String,
    pub action_label: String,
    pub total: usize,
    pub batch_items: usize,
    pub total_batches: usize,
    pub batch_index: usize,
    pub completed: usize,
    pub collection_name: String,
    pub namespace_ready: bool,
    pub phase: IndexPhase,
}

/// A progress report of the running job.
#[derive(Debug)]
pub struct IndexProgress {
    pub status: String,
    pub stage: String,
    pub completed: usize,
    pub total: usize,
    pub unit: String,
    pub message: String,
}

/// The outside work a run asks for next.
#[derive(Debug)]
pub enum IndexWork {
    /// Embed the units `start..end`.
    Embed { start: usize, end: usize },
    /// Make sure the active namespace exists for vectors of this size.
    EnsureNamespace { vector_size: usize },
    /// Write the points of the units `start..end` into `collection`.
    Upsert { collection: String, start: usize, end: usize },
    /// Indexing is over: this many units were written.
    Finished { completed: usize },
}

/// What the outside work gave back.
#[derive(Debug)]
pub enum IndexEvent {
    /// The batch was embedded; its first vector has this many dimensions.
    Embedded { vector_size: usize },
    /// The active namespace is ready under this collection name.
    NamespaceReady { collection: String },
    /// The batch's points were written.
    Upserted,
}

/// The number of batches of `b` items that hold `n` items.
pub open spec fn batches(n: nat, b: nat) -> nat {
    if n == 0 { 0 } else { ((n - 1) / (b as int) + 1) as nat }
}

/// The first unit of batch `i`.
pub open spec fn batch_start(i: nat, b: nat) -> nat {
    i * b
}

/// One past the last unit of batch `i`.
pub open spec fn batch_end(i: nat, b: nat, n: nat) -> nat {
    if i * b + b <= n { i * b + b } else { n }
}

/// The message of a batch about to be encoded.
pub open spec fn encode_message(i: nat, batches: nat, len: nat, label: Seq<char>) -> Seq<char> {
    "Encoding source-level batch "@ + decimal((i + 1) as nat) + "/"@ + decimal(batches) + " ("@ + decimal(len)
        + " unit(s)) for "@ + label + "."@
}

/// The message of a batch about to be written.
pub open spec fn writing_message(i: nat, batches: nat, len: nat) -> Seq<char> {
    "Writing source-level batch "@ + decimal((i + 1) as nat) + "/"@ + decimal(batches) + " ("@ + decimal(len)
        + " unit(s)) into active vector-space storage."@
}

/// The message of a batch that was written.
pub open spec fn wrote_message(i: nat, batches: nat, len: nat) -> Seq<char> {
    "Wrote source-level batch "@ + decimal((i + 1) as nat) + "/"@ + decimal(batches) + " ("@ + decimal(len)
        + " unit(s)) into active vector-space storage."@
}

/// `p` reports a running job at `stage`, `completed` of `total` units, with `message`.
pub open spec fn progress_is(p: IndexProgress, stage: Seq<char>, completed: nat, total: nat, message: Seq<char>) -> bool {
    &&& p.status@ == "running"@
    &&& p.stage@ == stage
    &&& p.completed == completed
    &&& p.total == total
    &&& p.unit@ == "unit"@
    &&& p.message@ == message
}

impl IndexRun {
    /// The run is consistent: its batches cover its units, and the units of the batches
    /// before the current one are written.
    pub open spec fn wf(self) -> bool {
        &&& self.batch_items > 0
        &&& self.total_batches == batches(self.total as nat, self.batch_items as nat)
        &&& self.phase == IndexPhase::Done ==> self.completed == self.total
        &&& self.phase != IndexPhase::Done ==> {
            &&& self.batch_index < self.total_batches
            &&& self.completed == batch_start(self.batch_index as nat, self.batch_items as nat)
        }
        &&& self.phase == IndexPhase::AwaitNamespace ==> !self.namespace_ready
        &&& self.phase == IndexPhase::AwaitUpsert ==> self.namespace_ready
    }

    /// The first unit of the current batch.
    pub open spec fn start(self) -> nat {
        batch_start(self.batch_index as nat, self.batch_items as nat)
    }

    /// One past the last unit of the current batch.
    pub open spec fn end(self) -> nat {
        batch_end(self.batch_index as nat, self.batch_items as nat, self.total as nat)
    }

    /// The run's fixed parts are those of `other`.
    pub open spec fn same_job(self, other: IndexRun) -> bool {
        &&& self.vector_space_id == other.vector_space_id
        &&& self.action_label == other.action_label
        &&& self.total == other.total
        &&& self.batch_items == other.batch_items
        &&& self.total_batches == other.total_batches
    }
}

/// Every batch but the last is full, the batches follow one another, and the last ends
/// at the last unit.
pub proof fn lemma_batches_tile(n: nat, b: nat, i: nat)
    requires
        b > 0,
        i < batches(n, b),
    ensures
        batch_start(i, b) < batch_end(i, b, n) <= n,
        i + 1 < batches(n, b) ==> batch_end(i, b, n) == batch_start(i + 1, b) && batch_end(i, b, n)
            - batch_start(i, b) == b,
        i + 1 == batches(n, b) ==> batch_end(i, b, n) == n,
{
    let t = batches(n, b);
    assert(n > 0);
    assert((t - 1) * b < n <= t * b) by (nonlinear_arith)
        requires
            t == (n - 1) / (b as int) + 1,
            b > 0,
            n > 0,
    ;
    assert(i * b + b == (i + 1) * b) by (nonlinear_arith);
    assert(i * b <= (t - 1) * b) by (nonlinear_arith)
        requires
            i <= t - 1,
    ;
    if i + 1 < t {
        assert((i + 1) * b <= (t - 1) * b) by (nonlinear_arith)
            requires
                i + 1 <= t - 1,
        ;
    } else {
        assert(i == t - 1);
    }
}

fn batch_message(prefix: &str, i: usize, total_batches: usize, len: usize, suffix: &str) -> (r: String)
    requires
        i < total_batches,
    ensures
        r@ == prefix@ + decimal((i + 1) as nat) + "/"@ + decimal(total_batches as nat) + " ("@ + decimal(len as nat)
            + " unit(s)) "@ + suffix@,
{
    let mut m = chars_of(prefix);
    append_chars(&mut m, &decimal_chars((i + 1) as u64));
    append_str(&mut m, "/");
    append_chars(&mut m, &decimal_chars(total_batches as u64));
    append_str(&mut m, " (");
    append_chars(&mut m, &decimal_chars(len as u64));
    append_str(&mut m, " unit(s)) ");
    append_str(&mut m, suffix);
    string_of(&m)
}

fn progress(stage: &str, completed: usize, total: usize, message: String) -> (r: IndexProgress)
    ensures
        progress_is(r, stage@, completed as nat, total as nat, message@),
{
    IndexProgress {
        status: "running".to_owned(),
        stage: stage.to_owned(),
        completed,
        total,
        unit: "unit".to_owned(),
        message,
    }
}

fn encode_progress(run: &IndexRun) -> (r: IndexProgress)
    requires
        run.wf(),
        run.phase != IndexPhase::Done,
    ensures
        progress_is(
            r,
            "encode"@,
            run.completed as nat,
            run.total as nat,
            encode_message(run.batch_index as nat, run.total_batches as nat, (run.end() - run.start()) as nat, run.action_label@),
        ),
{
    proof {
        lemma_batches_tile(run.total as nat, run.batch_items as nat, run.batch_index as nat);
    }
    let len = batch_len(run);
    let mut suffix = chars_of("for ");
    append_str(&mut suffix, run.action_label.as_str());
    append_str(&mut suffix, ".");
    let m = batch_message("Encoding source-level batch ", run.batch_index, run.total_batches, len, string_of(&suffix).as_str());
    proof {
        reveal_strlit(" unit(s)) ");
        reveal_strlit(" unit(s)) for ");
        reveal_strlit("for ");
        assert(m@ =~= encode_message(run.batch_index as nat, run.total_batches as nat, len as nat, run.action_label@));
    }
    progress("encode", run.completed, run.total, m)
}

fn batch_bounds(run: &IndexRun) -> (r: (usize, usize))
    requires
        run.wf(),
        run.phase != IndexPhase::Done,
    ensures
        r.0 == run.start(),
        r.1 == run.end(),
        r.0 < r.1 <= run.total,
{
    proof {
        lemma_batches_tile(run.total as nat, run.batch_items as nat, run.batch_index as nat);
    }
    let start = run.completed;
    let end = if run.total - start > run.batch_items { start + run.batch_items } else { run.total };
    (start, end)
}

fn batch_len(run: &IndexRun) -> (r: usize)
    requires
        run.wf(),
        run.phase != IndexPhase::Done,
    ensures
        r == run.end() - run.start(),
        r > 0,
{
    let (start, end) = batch_bounds(run);
    end - start
}

fn write_progress(run: &IndexRun, wrote: bool) -> (r: IndexProgress)
    requires
        run.wf(),
        run.phase != IndexPhase::Done,
    ensures
        progress_is(
            r,
            "vector_write"@,
            if wrote { run.end() } else { run.completed as nat },
            run.total as nat,
            if wrote {
                wrote_message(run.batch_index as nat, run.total_batches as nat, (run.end() - run.start()) as nat)
            } else {
                writing_message(run.batch_index as nat, run.total_batches as nat, (run.end() - run.start()) as nat)
            },
        ),
{
    let (start, end) = batch_bounds(run);
    let len = end - start;
    let prefix = if wrote { "Wrote source-level batch " } else { "Writing source-level batch " };
    let m = batch_message(prefix, run.batch_index, run.total_batches, len, "into active vector-space storage.");
    proof {
        reveal_strlit(" unit(s)) ");
        reveal_strlit(" unit(s)) into active vector-space storage.");
        reveal_strlit("into active vector-space storage.");
        if wrote {
            assert(m@ =~= wrote_message(run.batch_index as nat, run.total_batches as nat, len as nat));
        } else {
            assert(m@ =~= writing_message(run.batch_index as nat, run.total_batches as nat, len as nat));
        }
    }
    progress("vector_write", if wrote { end } else { run.completed }, run.total, m)
}

/// Starts indexing `total` units in batches of `batch_items`: nothing to do without units,
/// else the first batch is announced and embedded. The namespace's collection starts as the
/// vector space's stable name.
pub fn start_indexing(vector_space_id: &str, action_label: &str, total: usize, batch_items: usize) -> (r: (
    IndexRun,
    Vec<IndexProgress>,
    IndexWork,
))
    requires
        batch_items > 0,
    ensures
        r.0.wf(),
        r.0.vector_space_id@ == vector_space_id@,
        r.0.action_label@ == action_label@,
        r.0.total == total,
        r.0.batch_items == batch_items,
        r.0.batch_index == 0,
        r.0.completed == 0,
        !r.0.namespace_ready,
        r.0.collection_name@ == "vector_space_"@ + vector_space_id@,
        total == 0 ==> {
            &&& r.0.phase == IndexPhase::Done
            &&& r.1@.len() == 0
            &&& r.2 matches IndexWork::Finished { completed } && completed == 0
        },
        total > 0 ==> {
            &&& r.0.phase == IndexPhase::AwaitEmbedding
            &&& r.1@.len() == 1
            &&& progress_is(
                r.1@[0],
                "encode"@,
                0,
                total as nat,
                encode_message(0, r.0.total_batches as nat, r.0.end(), action_label@),
            )
            &&& r.2 matches IndexWork::Embed { start, end } && start == 0 && end == r.0.end()
        },
{
    let total_batches = crate::ranking::batch_count(total, batch_items);
    let run = IndexRun {
        vector_space_id: vector_space_id.to_owned(),
        action_label: action_label.to_owned(),
        total,
        batch_items,
        total_batches,
        batch_index: 0,
        completed: 0,
        collection_name: stable_vector_space_name(vector_space_id),
        namespace_ready: false,
        phase: if total == 0 { IndexPhase::Done } else { IndexPhase::AwaitEmbedding },
    };
    assert(batch_start(0, batch_items as nat) == 0) by (nonlinear_arith);
    if total == 0 {
        return (run, Vec::new(), IndexWork::Finished { completed: 0 });
    }
    let p = encode_progress(&run);
    let (start, end) = batch_bounds(&run);
    let mut ps = Vec::new();
    ps.push(p);
    (run, ps, IndexWork::Embed { start, end })
}

/// The work a run waits for, asked again.
pub open spec fn pending_work(run: IndexRun, w: IndexWork) -> bool {
    match run.phase {
        IndexPhase::AwaitEmbedding => w matches IndexWork::Embed { start, end } && start == run.start() && end == run.end(),
        IndexPhase::AwaitNamespace => w is EnsureNamespace,
        IndexPhase::AwaitUpsert => w matches IndexWork::Upsert { collection, start, end } && collection
            == run.collection_name && start == run.start() && end == run.end(),
        IndexPhase::Done => w matches IndexWork::Finished { completed } && completed == run.completed,
    }
}

/// One step of indexing: takes what the outside work gave back and says what comes next.
/// - an embedded batch asks for the namespace the first time, sized by its vectors, and
///   afterwards announces the batch's write and asks for it;
/// - a ready namespace names the collection, then the batch's write is announced and asked;
/// - a written batch counts its units and is reported; the next batch is then announced and
///   embedded, or, after the last, indexing finishes with every unit written;
/// - an event that answers no pending work changes nothing.
pub fn indexing_step(run: IndexRun, event: IndexEvent) -> (r: (IndexRun, Vec<IndexProgress>, IndexWork))
    requires
        run.wf(),
    ensures
        r.0.wf(),
        r.0.same_job(run),
        match (run.phase, event) {
            (IndexPhase::AwaitEmbedding, IndexEvent::Embedded { vector_size }) => if !run.namespace_ready {
                &&& r.0.phase == IndexPhase::AwaitNamespace
                &&& r.0.batch_index == run.batch_index && r.0.completed == run.completed
                &&& r.0.collection_name == run.collection_name
                &&& r.1@.len() == 0
                &&& r.2 matches IndexWork::EnsureNamespace { vector_size: v } && v == vector_size
            } else {
                &&& r.0.phase == IndexPhase::AwaitUpsert
                &&& r.0.batch_index == run.batch_index && r.0.completed == run.completed
                &&& r.0.collection_name == run.collection_name
                &&& r.1@.len() == 1
                &&& progress_is(r.1@[0], "vector_write"@, run.completed as nat, run.total as nat,
                    writing_message(run.batch_index as nat, run.total_batches as nat, (run.end() - run.start()) as nat))
                &&& r.2 matches IndexWork::Upsert { collection, start, end } && collection == run.collection_name
                    && start == run.start() && end == run.end()
            },
            (IndexPhase::AwaitNamespace, IndexEvent::NamespaceReady { collection }) => {
                &&& r.0.phase == IndexPhase::AwaitUpsert
                &&& r.0.namespace_ready
                &&& r.0.batch_index == run.batch_index && r.0.completed == run.completed
                &&& r.0.collection_name == collection
                &&& r.1@.len() == 1
                &&& progress_is(r.1@[0], "vector_write"@, run.completed as nat, run.total as nat,
                    writing_message(run.batch_index as nat, run.total_batches as nat, (run.end() - run.start()) as nat))
                &&& r.2 matches IndexWork::Upsert { collection: c, start, end } && c == collection
                    && start == run.start() && end == run.end()
            },
            (IndexPhase::AwaitUpsert, IndexEvent::Upserted) => {
                &&& r.0.completed == run.end()
                &&& r.0.collection_name == run.collection_name
                &&& r.0.namespace_ready
                &&& progress_is(r.1@[0], "vector_write"@, run.end(), run.total as nat,
                    wrote_message(run.batch_index as nat, run.total_batches as nat, (run.end() - run.start()) as nat))
                &&& if run.batch_index + 1 < run.total_batches {
                    &&& r.0.phase == IndexPhase::AwaitEmbedding
                    &&& r.0.batch_index == run.batch_index + 1
                    &&& r.1@.len() == 2
                    &&& progress_is(r.1@[1], "encode"@, run.end(), run.total as nat,
                        encode_message(r.0.batch_index as nat, run.total_batches as nat, (r.0.end() - r.0.start()) as nat, run.action_label@))
                    &&& r.2 matches IndexWork::Embed { start, end } && start == run.end() && end == r.0.end()
                } else {
                    &&& r.0.phase == IndexPhase::Done
                    &&& r.1@.len() == 1
                    &&& r.2 matches IndexWork::Finished { completed } && completed == run.total
                }
            },
            _ => {
                &&& r.0 == run
                &&& r.1@.len() == 0
                &&& pending_work(run, r.2)
            },
        },
{
    let ghost old_run = run;
    match (run.phase, event) {
        (IndexPhase::AwaitEmbedding, IndexEvent::Embedded { vector_size }) => {
            if !run.namespace_ready {
                let next = IndexRun { phase: IndexPhase::AwaitNamespace, ..run };
                (next, Vec::new(), IndexWork::EnsureNamespace { vector_size })
            } else {
                let next = IndexRun { phase: IndexPhase::AwaitUpsert, ..run };
                let p = write_progress(&next, false);
                let (start, end) = batch_bounds(&next);
                let collection = next.collection_name.clone();
                let mut ps = Vec::new();
                ps.push(p);
                (next, ps, IndexWork::Upsert { collection, start, end })
            }
        },
        (IndexPhase::AwaitNamespace, IndexEvent::NamespaceReady { collection }) => {
            let next = IndexRun {
                phase: IndexPhase::AwaitUpsert,
                namespace_ready: true,
                collection_name: collection.clone(),
                ..run
            };
            let p = write_progress(&next, false);
            let (start, end) = batch_bounds(&next);
            let mut ps = Vec::new();
            ps.push(p);
            (next, ps, IndexWork::Upsert { collection, start, end })
        },
        (IndexPhase::AwaitUpsert, IndexEvent::Upserted) => {
            proof {
                lemma_batches_tile(run.total as nat, run.batch_items as nat, run.batch_index as nat);
            }
            let wrote = write_progress(&run, true);
            let (_, end) = batch_bounds(&run);
            let mut ps = Vec::new();
            ps.push(wrote);
            if run.batch_index + 1 < run.total_batches {
                let next = IndexRun {
                    batch_index: run.batch_index + 1,
                    completed: end,
                    phase: IndexPhase::AwaitEmbedding,
                    ..run
                };
                let p = encode_progress(&next);
                let (s, e) = batch_bounds(&next);
                ps.push(p);
                (next, ps, IndexWork::Embed { start: s, end: e })
            } else {
                let next = IndexRun { completed: end, phase: IndexPhase::Done, ..run };
                (next, ps, IndexWork::Finished { completed: end })
            }
        },
        (phase, _) => {
            let work = match phase {
                IndexPhase::AwaitEmbedding => {
                    let (start, end) = batch_bounds(&run);
                    IndexWork::Embed { start, end }
                },
                IndexPhase::AwaitNamespace => IndexWork::EnsureNamespace { vector_size: 0 },
                IndexPhase::AwaitUpsert => {
                    let (start, end) = batch_bounds(&run);
                    IndexWork::Upsert { collection: run.collection_name.clone(), start, end }
                },
                IndexPhase::Done => IndexWork::Finished { completed: run.completed },
            };
            (run, Vec::new(), work)
        },
    }
}

/// The units of the source `source_id`, in order.
pub open spec fn units_of_source(units: Seq<UnitRecord>, source_id: Seq<char>) -> Seq<UnitRecord>
    decreases units.len(),
{
    if units.len() == 0 {
        seq![]
    } else if units.last().source_id@ == source_id {
        units_of_source(units.drop_last(), source_id).push(units.last())
    } else {
        units_of_source(units.drop_last(), source_id)
    }
}

/// The batches of the vector spaces that hold units of the source, each with only those
/// units, in order.
pub open spec fn batches_of_source(batches: Seq<(String, Vec<UnitRecord>)>, source_id: Seq<char>) -> Seq<(String, Seq<UnitRecord>)>
    decreases batches.len(),
{
    if batches.len() == 0 {
        seq![]
    } else {
        let rest = batches_of_source(batches.drop_last(), source_id);
        let units = units_of_source(batches.last().1@, source_id);
        if units.len() > 0 { rest.push((batches.last().0, units)) } else { rest }
    }
}

/// The batches as plain sequences.
pub open spec fn batch_views(batches: Seq<(String, Vec<UnitRecord>)>) -> Seq<(String, Seq<UnitRecord>)> {
    batches.map_values(|b: (String, Vec<UnitRecord>)| (b.0, b.1@))
}

fn source_units(units: Vec<UnitRecord>, source_id: &str) -> (r: Vec<UnitRecord>)
    ensures
        r@ == units_of_source(units@, source_id@),
{
    let ghost all = units@;
    assert(all.len() == units.len());
    let want = chars_of(source_id);
    let mut rest = crate::json::reversed(units);
    let mut kept: Vec<UnitRecord> = Vec::new();
    let mut i: usize = 0;
    while rest.len() > 0
        invariant
            i + rest@.len() == all.len(),
            all.len() <= usize::MAX,
            want@ == source_id@,
            rest@ == all.skip(i as int).reverse(),
            kept@ == units_of_source(all.take(i as int), source_id@),
        decreases rest.len(),
    {
        let u = rest.pop().unwrap();
        assert(u == all[i as int]) by {
            assert(all.skip(i as int).reverse().last() == all.skip(i as int)[0]);
        }
        assert(rest@ =~= all.skip(i + 1).reverse());
        let ghost t = all.take(i + 1);
        assert(t.drop_last() =~= all.take(i as int));
        assert(t.last() == all[i as int]);
        if crate::text::chars_eq(&chars_of(u.source_id.as_str()), &want) {
            kept.push(u);
        }
        i += 1;
    }
    assert(all.take(all.len() as int) =~= all);
    kept
}

/// The units that a source's indexing writes, per vector space: each batch keeps only the
/// source's units, and batches left without any are dropped.
pub fn indexed_units_by_vector_space(batches: Vec<(String, Vec<UnitRecord>)>, source_id: &str) -> (r: Vec<(String, Vec<UnitRecord>)>)
    ensures
        batch_views(r@) == batches_of_source(batches@, source_id@),
{
    let ghost all = batches@;
    assert(all.len() == batches.len());
    let mut rest = crate::json::reversed(batches);
    let mut kept: Vec<(String, Vec<UnitRecord>)> = Vec::new();
    let mut i: usize = 0;
    assert(batch_views(kept@) =~= batches_of_source(all.take(0), source_id@));
    while rest.len() > 0
        invariant
            i + rest@.len() == all.len(),
            all.len() <= usize::MAX,
            rest@ == all.skip(i as int).reverse(),
            batch_views(kept@) == batches_of_source(all.take(i as int), source_id@),
        decreases rest.len(),
    {
        let (vector_space_id, units) = rest.pop().unwrap();
        assert((vector_space_id, units) == all[i as int]) by {
            assert(all.skip(i as int).reverse().last() == all.skip(i as int)[0]);
        }
        assert(rest@ =~= all.skip(i + 1).reverse());
        let ghost t = all.take(i + 1);
        assert(t.drop_last() =~= all.take(i as int));
        assert(t.last() == all[i as int]);
        let units = source_units(units, source_id);
        if units.len() > 0 {
            let ghost before = kept@;
            kept.push((vector_space_id, units));
            assert(batch_views(kept@) =~= batch_views(before).push((kept@.last().0, kept@.last().1@)));
        }
        i += 1;
    }
    assert(all.take(all.len() as int) =~= all);
    kept
}

} // verus!
