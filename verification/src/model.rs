use vstd::prelude::*;
use crate::envelope::concat;
use crate::sorted::{is_sorted_set, insert_sorted, set_of};
use crate::text::{append_str, chars_eq, chars_of, decimal, decimal_chars, string_of, append_chars};

verus! {

/// What a source action does to a source root.
#[derive(Clone, Copy, Debug, PartialEq, Eq, Structural)]
pub enum SourceActionKind {
    Refresh,
    Rescan,
    Rebuild,
}

impl SourceActionKind {
    /// The wire name of the action.
    pub fn as_str(self) -> (r: &'static str)
        ensures
            r@ == match self {
                SourceActionKind::Refresh => "refresh"@,
                SourceActionKind::Rescan => "rescan"@,
                SourceActionKind::Rebuild => "rebuild"@,
            },
    {
        match self {
            SourceActionKind::Refresh => "refresh",
            SourceActionKind::Rescan => "rescan",
            SourceActionKind::Rebuild => "rebuild",
        }
    }

    /// Whether the action scans every file rather than only changed ones.
    pub fn requires_full_scan(self) -> (r: bool)
        ensures
            r == (self != SourceActionKind::Refresh),
    {
        match self {
            SourceActionKind::Refresh => false,
            _ => true,
        }
    }
}

/// A file found under a source root by a scan.
#[derive(Debug)]
pub struct ObservedSourceFile {
    pub absolute_path: String,
    pub relative_path: String,
    pub size_bytes: u64,
    pub modified_at_ms: Option<u128>,
}

/// A source file of a library.
#[derive(Debug)]
pub struct SourceRecord {
    pub id: String,
    pub source_root_id: Option<String>,
    pub source_root_path: Option<String>,
    pub source_path: String,
    pub source_uri: String,
    pub relative_path: Option<String>,
    pub source_type: String,
    pub media_type: String,
    pub kind: String,
    pub status: String,
    pub status_reason: Option<String>,
    pub page_count: Option<usize>,
    pub duration_ms: Option<u64>,
    pub observed_size_bytes: Option<u64>,
    pub observed_modified_at_ms: Option<u128>,
    pub source_content_id: String,
    pub asset_ids: Vec<String>,
}


/// The plan of a source action over a library's source roots.
#[derive(Debug)]
pub struct SourceActionPlan {
    pub library_id: String,
    pub action: SourceActionKind,
    pub target_root_ids: Vec<String>,
    /// Paths already known to have changed, by source root.
    pub changed_paths_by_root: Vec<(String, Vec<String>)>,
}


/// What a probe found of a vector space's active namespace.
#[derive(Debug)]
pub enum ActiveNamespaceProbeResult {
    /// The alias points at an existing collection.
    Ready { target_collection: String },
    /// Neither the alias nor a collection of that name exists.
    Missing,
    /// The alias points at a collection that no longer exists.
    MissingTarget { target_collection: String },
    /// A collection, not an alias, holds the namespace's name.
    LegacyDirectCollection,
}

fn key2(a: &str, b: &str) -> (r: String)
    ensures
        r@ == a@ + "::"@ + b@,
{
    let mut m = chars_of(a);
    append_str(&mut m, "::");
    append_str(&mut m, b);
    string_of(&m)
}

/// The key of a unit's index in a vector space: `unit_id::vector_space_id`.
pub fn unit_index_key(unit_id: &str, vector_space_id: &str) -> (r: String)
    ensures
        r@ == unit_id@ + "::"@ + vector_space_id@,
{
    key2(unit_id, vector_space_id)
}

/// The key of a content's end-to-end index state: `content_id::pipe_signature::vector_space_id`.
pub fn content_e2e_index_state_key(content_id: &str, pipe_signature: &str, vector_space_id: &str) -> (r: String)
    ensures
        r@ == content_id@ + "::"@ + pipe_signature@ + "::"@ + vector_space_id@,
{
    let first = key2(content_id, pipe_signature);
    key2(first.as_str(), vector_space_id)
}

/// The key of where an asset sits in a source: `source_id::asset_id`.
pub fn source_asset_location_key(source_id: &str, asset_id: &str) -> (r: String)
    ensures
        r@ == source_id@ + "::"@ + asset_id@,
{
    key2(source_id, asset_id)
}

/// A maintenance action on a library.
#[derive(Clone, Copy, Debug, PartialEq, Eq, Structural)]
pub enum MaintenanceActionKind {
    CleanupRetiredVectorSpaces,
}

impl MaintenanceActionKind {
    /// The wire name of the action.
    pub fn as_str(self) -> (r: &'static str)
        ensures
            r@ == "cleanup_retired_vector_spaces"@,
    {
        match self {
            MaintenanceActionKind::CleanupRetiredVectorSpaces => "cleanup_retired_vector_spaces",
        }
    }
}

/// What started a source action.
#[derive(Clone, Copy, Debug, PartialEq, Eq, Structural)]
pub enum SourceActionTrigger {
    Manual,
    Watcher,
}

impl SourceActionTrigger {
    /// The wire name of the trigger.
    pub fn as_str(self) -> (r: &'static str)
        ensures
            r@ == match self {
                SourceActionTrigger::Manual => "manual"@,
                SourceActionTrigger::Watcher => "watcher"@,
            },
    {
        match self {
            SourceActionTrigger::Manual => "manual",
            SourceActionTrigger::Watcher => "watcher",
        }
    }
}

/// A query asset kept for a while after upload.
#[derive(Debug)]
pub struct TempQueryAssetRecord {
    pub id: String,
    pub owner_scope: String,
    pub library_id: Option<String>,
    pub path: String,
    pub source_type: String,
    pub content_type: String,
    pub original_filename: Option<String>,
    pub page_count: Option<usize>,
    pub duration_ms: Option<u64>,
    pub size_bytes: usize,
    pub created_at_ms: u128,
    pub expires_at_ms: u128,
}

impl TempQueryAssetRecord {
    /// Whether the asset belongs to no library.
    pub fn is_global(&self) -> (r: bool)
        ensures
            r == (self.owner_scope@ == "global"@),
    {
        chars_eq(&chars_of(self.owner_scope.as_str()), &chars_of("global"))
    }

    /// Whether the asset belongs to the library `library_id`.
    pub fn is_library_scoped_to(&self, library_id: &str) -> (r: bool)
        ensures
            r == (self.owner_scope@ == "library"@ && (self.library_id matches Some(id) && id@ == library_id@)),
    {
        if !chars_eq(&chars_of(self.owner_scope.as_str()), &chars_of("library")) {
            return false;
        }
        match &self.library_id {
            Some(id) => chars_eq(&chars_of(id.as_str()), &chars_of(library_id)),
            None => false,
        }
    }
}

/// How many query assets a prune removed, by reason.
#[derive(Debug)]
pub struct TempQueryAssetPruneSummary {
    pub expired_removed: usize,
    pub missing_removed: usize,
}

impl TempQueryAssetPruneSummary {
    /// All assets removed.
    pub fn removed_count(&self) -> (r: usize)
        requires
            self.expired_removed + self.missing_removed <= usize::MAX,
        ensures
            r == self.expired_removed + self.missing_removed,
    {
        self.expired_removed + self.missing_removed
    }
}

/// The counts of a prepared source action.
#[derive(Debug)]
pub struct SourceActionSummary {
    pub scanned_roots: usize,
    pub observed_files: usize,
    pub matched_files: usize,
    pub activated_sources: usize,
    pub invalidated_sources: usize,
    pub out_of_scope_sources: usize,
    pub indexing_units: usize,
    pub degraded_roots: usize,
}

/// The units that a prepared source action indexes into one vector space.
#[derive(Debug)]
pub struct VectorSpaceBatch {
    pub vector_space_id: String,
    pub unit_count: usize,
}

/// How a source action job ended: its status and phase, how many roots it completed, the
/// vector spaces it activated (a sorted set), whether its structured changes apply, and a
/// summary line.
#[derive(Debug)]
pub struct SourceActionJobOutcome {
    pub status: String,
    pub phase: String,
    pub completed: usize,
    pub activated_vector_spaces: Vec<String>,
    pub apply_structured_changes: bool,
    pub summary: String,
}

/// The name of an action, as the outcome's summary writes it.
pub open spec fn action_name(a: SourceActionKind) -> Seq<char> {
    match a {
        SourceActionKind::Refresh => "refresh"@,
        SourceActionKind::Rescan => "rescan"@,
        SourceActionKind::Rebuild => "rebuild"@,
    }
}

/// The summary line of a completed source action.
pub open spec fn completed_summary(a: SourceActionKind, s: SourceActionSummary) -> Seq<char> {
    action_name(a) + " "@ + decimal(s.scanned_roots as nat) + " source root(s); observed "@ + decimal(
        s.observed_files as nat,
    ) + " file(s), matched "@ + decimal(s.matched_files as nat) + " file(s), activated "@ + decimal(
        s.activated_sources as nat,
    ) + ", invalidated "@ + decimal(s.invalidated_sources as nat) + ", out_of_scope "@ + decimal(
        s.out_of_scope_sources as nat,
    ) + ", indexed "@ + decimal(s.indexing_units as nat) + " unit(s)."@
}

fn append_count(m: &mut Vec<char>, n: usize)
    ensures
        final(m)@ == old(m)@ + decimal(n as nat),
{
    let d = decimal_chars(n as u64);
    append_chars(m, &d);
}

/// The vector spaces of the batches that index at least one unit.
pub open spec fn nonempty_batch_spaces(batches: Seq<VectorSpaceBatch>) -> Set<Seq<char>> {
    Set::new(|id: Seq<char>| exists|i: int| 0 <= i < batches.len() && batches[i].unit_count > 0 && batches[i].vector_space_id@ == id)
}

impl SourceActionJobOutcome {
    /// The outcome of a source action that went through: completed and activated, with the
    /// roots it accepted, the vector spaces whose batches index something, and its counts.
    pub fn completed(
        action: SourceActionKind,
        accepted_root_count: usize,
        summary: &SourceActionSummary,
        batches: &Vec<VectorSpaceBatch>,
    ) -> (r: SourceActionJobOutcome)
        ensures
            r.status@ == "completed"@,
            r.phase@ == "activated"@,
            r.completed == accepted_root_count,
            is_sorted_set(r.activated_vector_spaces@),
            set_of(r.activated_vector_spaces@) == nonempty_batch_spaces(batches@),
            r.apply_structured_changes,
            r.summary@ == completed_summary(action, *summary),
    {
        let mut m = chars_of(action.as_str());
        append_str(&mut m, " ");
        append_count(&mut m, summary.scanned_roots);
        append_str(&mut m, " source root(s); observed ");
        append_count(&mut m, summary.observed_files);
        append_str(&mut m, " file(s), matched ");
        append_count(&mut m, summary.matched_files);
        append_str(&mut m, " file(s), activated ");
        append_count(&mut m, summary.activated_sources);
        append_str(&mut m, ", invalidated ");
        append_count(&mut m, summary.invalidated_sources);
        append_str(&mut m, ", out_of_scope ");
        append_count(&mut m, summary.out_of_scope_sources);
        append_str(&mut m, ", indexed ");
        append_count(&mut m, summary.indexing_units);
        append_str(&mut m, " unit(s).");
        let mut spaces: Vec<String> = Vec::new();
        let mut i: usize = 0;
        proof {
            assert(crate::sorted::strictly_sorted(crate::json::string_views(spaces@)));
            assert(set_of(spaces@) =~= Set::<Seq<char>>::empty());
        }
        while i < batches.len()
            invariant
                i <= batches.len(),
                is_sorted_set(spaces@),
                set_of(spaces@) == Set::new(
                    |id: Seq<char>| exists|j: int| 0 <= j < i && batches@[j].unit_count > 0 && batches@[j].vector_space_id@ == id,
                ),
            decreases batches.len() - i,
        {
            let ghost before = set_of(spaces@);
            if batches[i].unit_count > 0 {
                insert_sorted(&mut spaces, batches[i].vector_space_id.clone());
            }
            assert(set_of(spaces@) =~= Set::new(
                |id: Seq<char>| exists|j: int| 0 <= j < i + 1 && batches@[j].unit_count > 0 && batches@[j].vector_space_id@ == id,
            )) by {
                assert forall|id: Seq<char>| #[trigger] set_of(spaces@).contains(id) == (exists|j: int|
                    0 <= j < i + 1 && batches@[j].unit_count > 0 && batches@[j].vector_space_id@ == id) by {
                    if exists|j: int| 0 <= j < i + 1 && batches@[j].unit_count > 0 && batches@[j].vector_space_id@ == id {
                        let j = choose|j: int| 0 <= j < i + 1 && batches@[j].unit_count > 0 && batches@[j].vector_space_id@ == id;
                        if j < i {
                            assert(before.contains(id));
                        }
                    }
                }
            }
            i += 1;
        }
        assert(set_of(spaces@) =~= nonempty_batch_spaces(batches@));
        SourceActionJobOutcome {
            status: "completed".to_owned(),
            phase: "activated".to_owned(),
            completed: accepted_root_count,
            activated_vector_spaces: spaces,
            apply_structured_changes: true,
            summary: string_of(&m),
        }
    }

    /// The outcome of a source action that failed before changing anything.
    pub fn failed(action: SourceActionKind, completed: usize, message: &str) -> (r: SourceActionJobOutcome)
        ensures
            r.status@ == "failed"@,
            r.phase@ == "failed"@,
            r.completed == completed,
            r.activated_vector_spaces@.len() == 0,
            !r.apply_structured_changes,
            r.summary@ == action_name(action) + " failed: "@ + message@,
    {
        let mut m = chars_of(action.as_str());
        append_str(&mut m, " failed: ");
        append_str(&mut m, message);
        SourceActionJobOutcome {
            status: "failed".to_owned(),
            phase: "failed".to_owned(),
            completed,
            activated_vector_spaces: Vec::new(),
            apply_structured_changes: false,
            summary: string_of(&m),
        }
    }

    /// The outcome of a source action that failed after some of its changes were made.
    pub fn failed_with_structured_changes(
        action: SourceActionKind,
        completed: usize,
        activated_vector_spaces: Vec<String>,
        message: &str,
    ) -> (r: SourceActionJobOutcome)
        ensures
            r.status@ == "failed"@,
            r.phase@ == "failed"@,
            r.completed == completed,
            r.activated_vector_spaces == activated_vector_spaces,
            r.apply_structured_changes,
            r.summary@ == action_name(action) + " partially failed: "@ + message@,
    {
        let mut m = chars_of(action.as_str());
        append_str(&mut m, " partially failed: ");
        append_str(&mut m, message);
        SourceActionJobOutcome {
            status: "failed".to_owned(),
            phase: "failed".to_owned(),
            completed,
            activated_vector_spaces,
            apply_structured_changes: true,
            summary: string_of(&m),
        }
    }

    /// The outcome of a source action canceled before changing anything.
    pub fn canceled(action: SourceActionKind, completed: usize, message: &str) -> (r: SourceActionJobOutcome)
        ensures
            r.status@ == "canceled"@,
            r.phase@ == "canceled"@,
            r.completed == completed,
            r.activated_vector_spaces@.len() == 0,
            !r.apply_structured_changes,
            r.summary@ == action_name(action) + " canceled: "@ + message@,
    {
        let mut m = chars_of(action.as_str());
        append_str(&mut m, " canceled: ");
        append_str(&mut m, message);
        SourceActionJobOutcome {
            status: "canceled".to_owned(),
            phase: "canceled".to_owned(),
            completed,
            activated_vector_spaces: Vec::new(),
            apply_structured_changes: false,
            summary: string_of(&m),
        }
    }

    /// The outcome of a source action canceled after some of its changes were made.
    pub fn canceled_with_structured_changes(
        action: SourceActionKind,
        completed: usize,
        activated_vector_spaces: Vec<String>,
        message: &str,
    ) -> (r: SourceActionJobOutcome)
        ensures
            r.status@ == "canceled"@,
            r.phase@ == "canceled"@,
            r.completed == completed,
            r.activated_vector_spaces == activated_vector_spaces,
            r.apply_structured_changes,
            r.summary@ == action_name(action) + " canceled: "@ + message@,
    {
        let mut m = chars_of(action.as_str());
        append_str(&mut m, " canceled: ");
        append_str(&mut m, message);
        SourceActionJobOutcome {
            status: "canceled".to_owned(),
            phase: "canceled".to_owned(),
            completed,
            activated_vector_spaces,
            apply_structured_changes: true,
            summary: string_of(&m),
        }
    }
}

/// What a scan of a source root found.
#[derive(Debug)]
pub struct SourceRootScanResult {
    pub status: String,
    pub observed_entries: Vec<(String, ObservedSourceFile)>,
    pub error: Option<String>,
}

impl SourceRootScanResult {
    /// The result for a disabled root: nothing observed, no error.
    pub fn disabled() -> (r: SourceRootScanResult)
        ensures
            r.status@ == "disabled"@,
            r.observed_entries@.len() == 0,
            r.error is None,
    {
        SourceRootScanResult { status: "disabled".to_owned(), observed_entries: Vec::new(), error: None }
    }
}

/// How an import job ended.
#[derive(Debug)]
pub struct ImportJobOutcome {
    pub status: String,
    pub phase: String,
    pub completed: usize,
    pub activated_vector_spaces: Vec<String>,
    pub summary: String,
}

impl ImportJobOutcome {
    /// An import that went through.
    pub fn completed(summary: String, completed: usize, activated_vector_spaces: Vec<String>) -> (r: ImportJobOutcome)
        ensures
            r.status@ == "completed"@,
            r.phase@ == "activated"@,
            r.completed == completed,
            r.activated_vector_spaces == activated_vector_spaces,
            r.summary == summary,
    {
        ImportJobOutcome {
            status: "completed".to_owned(),
            phase: "activated".to_owned(),
            completed,
            activated_vector_spaces,
            summary,
        }
    }

    /// An import that failed in `phase` before activating anything.
    pub fn failed(phase: &str, message: String, completed: usize) -> (r: ImportJobOutcome)
        ensures
            r.status@ == "failed"@,
            r.phase@ == phase@,
            r.completed == completed,
            r.activated_vector_spaces@.len() == 0,
            r.summary == message,
    {
        ImportJobOutcome {
            status: "failed".to_owned(),
            phase: phase.to_owned(),
            completed,
            activated_vector_spaces: Vec::new(),
            summary: message,
        }
    }

    /// An import that failed in `phase` after activating some vector spaces.
    pub fn failed_with_activations(
        phase: &str,
        message: String,
        completed: usize,
        activated_vector_spaces: Vec<String>,
    ) -> (r: ImportJobOutcome)
        ensures
            r.status@ == "failed"@,
            r.phase@ == phase@,
            r.completed == completed,
            r.activated_vector_spaces == activated_vector_spaces,
            r.summary == message,
    {
        ImportJobOutcome { status: "failed".to_owned(), phase: phase.to_owned(), completed, activated_vector_spaces, summary: message }
    }

    /// An import canceled before activating anything.
    pub fn canceled(message: String, completed: usize) -> (r: ImportJobOutcome)
        ensures
            r.status@ == "canceled"@,
            r.phase@ == "canceled"@,
            r.completed == completed,
            r.activated_vector_spaces@.len() == 0,
            r.summary == message,
    {
        ImportJobOutcome {
            status: "canceled".to_owned(),
            phase: "canceled".to_owned(),
            completed,
            activated_vector_spaces: Vec::new(),
            summary: message,
        }
    }

    /// An import canceled after activating some vector spaces.
    pub fn canceled_with_activations(message: String, completed: usize, activated_vector_spaces: Vec<String>) -> (r:
        ImportJobOutcome)
        ensures
            r.status@ == "canceled"@,
            r.phase@ == "canceled"@,
            r.completed == completed,
            r.activated_vector_spaces == activated_vector_spaces,
            r.summary == message,
    {
        ImportJobOutcome {
            status: "canceled".to_owned(),
            phase: "canceled".to_owned(),
            completed,
            activated_vector_spaces,
            summary: message,
        }
    }
}

} // verus!
