use vstd::prelude::*;
use crate::glob::{glob_matches, glob_pattern_matches};
use crate::json::string_views;
use crate::model::{ObservedSourceFile, SourceActionKind, SourceActionPlan, SourceRecord};
use crate::find::{file_name_of, path_file_name};
use crate::config::{lookup, find_entry, opt_view};
use crate::sorted::{insert_sorted, is_sorted_set, set_of, sorted_contains};
use crate::text::{
    ascii_lowercase, ascii_lowercase_chars, chars_eq, chars_of, replace_char, replace_char_exec, string_of, trim,
    trim_chars, trim_end_char, trim_end_char_exec, trim_start_char, trim_start_char_exec, trim_start_str,
    trim_start_str_exec, last_index_of, rfind_char, sub_chars,
};

verus! {

/// Which files of a source root are indexed: glob patterns over relative paths and file
/// extensions.
#[derive(Debug)]
pub struct SourceRootRulesPayload {
    pub include_globs: Vec<String>,
    pub exclude_globs: Vec<String>,
    pub include_extensions: Vec<String>,
}

/// A glob rule as stored: trimmed, with `/` for each backslash, without leading `./` and without
/// leading or trailing `/`.
pub open spec fn normalized_glob(g: Seq<char>) -> Seq<char> {
    trim_end_char(trim_start_char(trim_start_str(replace_char(trim(g), '\\', '/'), "./"@), '/'), '/')
}

/// An extension rule as stored: trimmed, without leading dots, in ASCII lower case.
pub open spec fn normalized_extension(e: Seq<char>) -> Seq<char> {
    ascii_lowercase(trim_start_char(trim(e), '.'))
}

/// The non-empty normalized globs of a list.
pub open spec fn glob_set(gs: Seq<Seq<char>>) -> Set<Seq<char>>
    decreases gs.len(),
{
    if gs.len() == 0 {
        Set::empty()
    } else {
        let n = normalized_glob(gs.last());
        if n.len() > 0 { glob_set(gs.drop_last()).insert(n) } else { glob_set(gs.drop_last()) }
    }
}

/// The non-empty normalized extensions of a list.
pub open spec fn extension_set(es: Seq<Seq<char>>) -> Set<Seq<char>>
    decreases es.len(),
{
    if es.len() == 0 {
        Set::empty()
    } else {
        let n = normalized_extension(es.last());
        if n.len() > 0 { extension_set(es.drop_last()).insert(n) } else { extension_set(es.drop_last()) }
    }
}

fn normalize_glob(g: &String) -> (r: Vec<char>)
    ensures
        r@ == normalized_glob(g@),
{
    let t = trim_chars(&chars_of(g.as_str()));
    let slashed = replace_char_exec(&t, '\\', '/');
    let no_dot = trim_start_str_exec(&slashed, &chars_of("./"));
    let a = trim_start_char_exec(&no_dot, '/');
    trim_end_char_exec(&a, '/')
}

fn normalize_extension(e: &String) -> (r: Vec<char>)
    ensures
        r@ == normalized_extension(e@),
{
    let t = trim_chars(&chars_of(e.as_str()));
    let a = trim_start_char_exec(&t, '.');
    ascii_lowercase_chars(&a)
}

/// The glob rules as a sorted set of their non-empty normalized forms.
pub fn normalize_rule_globs(globs: Vec<String>) -> (r: Vec<String>)
    ensures
        is_sorted_set(r@),
        set_of(r@) == glob_set(string_views(globs@)),
{
    let mut unique: Vec<String> = Vec::new();
    assert(set_of(unique@) =~= Set::<Seq<char>>::empty());
    let mut i: usize = 0;
    while i < globs.len()
        invariant
            i <= globs.len(),
            is_sorted_set(unique@),
            set_of(unique@) == glob_set(string_views(globs@).take(i as int)),
        decreases globs.len() - i,
    {
        let n = normalize_glob(&globs[i]);
        assert(string_views(globs@).take(i + 1).drop_last() =~= string_views(globs@).take(i as int));
        assert(string_views(globs@).take(i + 1).last() == globs@[i as int]@);
        if n.len() > 0 {
            insert_sorted(&mut unique, string_of(&n));
        }
        i = i + 1;
    }
    assert(string_views(globs@).take(globs.len() as int) =~= string_views(globs@));
    unique
}

/// The extension rules as a sorted set of their non-empty normalized forms.
pub fn normalize_rule_extensions(extensions: Vec<String>) -> (r: Vec<String>)
    ensures
        is_sorted_set(r@),
        set_of(r@) == extension_set(string_views(extensions@)),
{
    let mut unique: Vec<String> = Vec::new();
    assert(set_of(unique@) =~= Set::<Seq<char>>::empty());
    let mut i: usize = 0;
    while i < extensions.len()
        invariant
            i <= extensions.len(),
            is_sorted_set(unique@),
            set_of(unique@) == extension_set(string_views(extensions@).take(i as int)),
        decreases extensions.len() - i,
    {
        let n = normalize_extension(&extensions[i]);
        assert(string_views(extensions@).take(i + 1).drop_last() =~= string_views(extensions@).take(i as int));
        assert(string_views(extensions@).take(i + 1).last() == extensions@[i as int]@);
        if n.len() > 0 {
            insert_sorted(&mut unique, string_of(&n));
        }
        i = i + 1;
    }
    assert(string_views(extensions@).take(extensions.len() as int) =~= string_views(extensions@));
    unique
}

/// Source root rules with each list normalized (see `normalize_rule_globs` and
/// `normalize_rule_extensions`).
pub fn normalize_source_root_rules(rules: SourceRootRulesPayload) -> (r: SourceRootRulesPayload)
    ensures
        is_sorted_set(r.include_globs@),
        set_of(r.include_globs@) == glob_set(string_views(rules.include_globs@)),
        is_sorted_set(r.exclude_globs@),
        set_of(r.exclude_globs@) == glob_set(string_views(rules.exclude_globs@)),
        is_sorted_set(r.include_extensions@),
        set_of(r.include_extensions@) == extension_set(string_views(rules.include_extensions@)),
{
    SourceRootRulesPayload {
        include_globs: normalize_rule_globs(rules.include_globs),
        exclude_globs: normalize_rule_globs(rules.exclude_globs),
        include_extensions: normalize_rule_extensions(rules.include_extensions),
    }
}

/// The watch state of a source root whose action is queued: rescans and rebuilds share the
/// rescan state.
pub fn queued_watch_state_for_action(action: SourceActionKind) -> (r: &'static str)
    ensures
        r@ == if action == SourceActionKind::Refresh { "queued_refresh"@ } else { "queued_rescan"@ },
{
    match action {
        SourceActionKind::Refresh => "queued_refresh",
        _ => "queued_rescan",
    }
}

/// The watch state of a source root whose action runs: rescans and rebuilds share the
/// rescan state.
pub fn running_watch_state_for_action(action: SourceActionKind) -> (r: &'static str)
    ensures
        r@ == if action == SourceActionKind::Refresh { "refreshing"@ } else { "rescanning"@ },
{
    match action {
        SourceActionKind::Refresh => "refreshing",
        _ => "rescanning",
    }
}

/// The watch states of a source root with an action queued or running.
pub open spec fn is_in_flight_state(s: Seq<char>) -> bool {
    s == "queued_refresh"@ || s == "queued_rescan"@ || s == "refreshing"@ || s == "rescanning"@
}

/// Whether a source root with this watch state has an action queued or running.
pub fn source_root_action_in_flight(watch_state: &str) -> (r: bool)
    ensures
        r == is_in_flight_state(watch_state@),
{
    let w = chars_of(watch_state);
    chars_eq(&w, &chars_of("queued_refresh")) || chars_eq(&w, &chars_of("queued_rescan")) || chars_eq(
        &w,
        &chars_of("refreshing"),
    ) || chars_eq(&w, &chars_of("rescanning"))
}

/// The status of a source root after a scan: `disabled`, `degraded` when the scan was, else
/// `ready`.
pub fn source_root_status_from_scan(enabled: bool, scan_status: &str) -> (r: String)
    ensures
        r@ == if !enabled {
            "disabled"@
        } else if scan_status@ == "degraded"@ {
            "degraded"@
        } else {
            "ready"@
        },
{
    if !enabled {
        "disabled".to_owned()
    } else if chars_eq(&chars_of(scan_status), &chars_of("degraded")) {
        "degraded".to_owned()
    } else {
        "ready".to_owned()
    }
}

/// The watch state of a source root after a scan: `disabled`, `queued_refresh` when a
/// refresh is queued, `error` when the scan was degraded, else `watching`.
pub fn source_root_watch_state(enabled: bool, scan_status: &str, queued: bool) -> (r: String)
    ensures
        r@ == if !enabled {
            "disabled"@
        } else if queued {
            "queued_refresh"@
        } else if scan_status@ == "degraded"@ {
            "error"@
        } else {
            "watching"@
        },
{
    if !enabled {
        "disabled".to_owned()
    } else if queued {
        "queued_refresh".to_owned()
    } else if chars_eq(&chars_of(scan_status), &chars_of("degraded")) {
        "error".to_owned()
    } else {
        "watching".to_owned()
    }
}


/// Whether one of the glob patterns matches the path.
pub open spec fn any_glob_matches(globs: Seq<String>, path: Seq<char>) -> bool {
    exists|i: int| 0 <= i < globs.len() && glob_matches(#[trigger] globs[i]@, path)
}

/// Whether the rules admit a relative path (with `/` for each backslash): some include
/// pattern matches it, or there is none, and no exclude pattern matches it.
pub open spec fn rules_allow_path(path: Seq<char>, rules: SourceRootRulesPayload) -> bool {
    let p = replace_char(path, '\\', '/');
    &&& (rules.include_globs.len() == 0 || any_glob_matches(rules.include_globs@, p))
    &&& !any_glob_matches(rules.exclude_globs@, p)
}

fn any_matches(globs: &Vec<String>, path: &String) -> (r: bool)
    requires
        path@.len() < usize::MAX,
    ensures
        r == any_glob_matches(globs@, path@),
{
    let mut i: usize = 0;
    while i < globs.len()
        invariant
            i <= globs.len(),
            path@.len() < usize::MAX,
            forall|k: int| 0 <= k < i ==> !glob_matches(#[trigger] globs@[k]@, path@),
        decreases globs.len() - i,
    {
        if glob_pattern_matches(globs[i].as_str(), path.as_str()) {
            return true;
        }
        i = i + 1;
    }
    false
}

/// Whether the rules admit a relative path (see `rules_allow_path`).
pub fn source_root_rules_allow_path(relative_path: &str, rules: &SourceRootRulesPayload) -> (r: bool)
    requires
        relative_path@.len() < usize::MAX,
    ensures
        r == rules_allow_path(relative_path@, *rules),
{
    let p = string_of(&replace_char_exec(&chars_of(relative_path), '\\', '/'));
    let included = rules.include_globs.len() == 0 || any_matches(&rules.include_globs, &p);
    if !included {
        return false;
    }
    !any_matches(&rules.exclude_globs, &p)
}

/// The extension of a path (`Path::extension`): what follows the last `.` of its final
/// component, unless that dot starts the name or there is none.
pub open spec fn path_extension(p: Seq<char>) -> Option<Seq<char>> {
    match path_file_name(p) {
        None => None,
        Some(name) => match last_index_of(name, '.') {
            Some(k) => if k > 0 { Some(name.skip(k + 1)) } else { None },
            None => None,
        },
    }
}

/// Exec counterpart of `path_extension`.
pub fn extension_of(p: &str) -> (r: Option<String>)
    ensures
        opt_view(r) == path_extension(p@),
{
    match file_name_of(p) {
        None => None,
        Some(name) => {
            let cs = chars_of(name.as_str());
            match rfind_char(&cs, '.') {
                Some(k) => {
                    if k > 0 {
                        let e = sub_chars(&cs, k + 1, cs.len());
                        assert(e@ =~= cs@.skip(k + 1));
                        Some(string_of(&e))
                    } else {
                        None
                    }
                },
                None => None,
            }
        },
    }
}

/// The lower-cased extension of a file's absolute path.
pub open spec fn lower_extension(absolute_path: Seq<char>) -> Option<Seq<char>> {
    match path_extension(absolute_path) {
        Some(e) => Some(ascii_lowercase(e)),
        None => None,
    }
}

fn lower_extension_of(absolute_path: &str) -> (r: Option<String>)
    ensures
        opt_view(r) == lower_extension(absolute_path@),
{
    match extension_of(absolute_path) {
        Some(e) => Some(string_of(&ascii_lowercase_chars(&chars_of(e.as_str())))),
        None => None,
    }
}

/// The file extensions that sources may have.
pub open spec fn supported_source_extension(e: Seq<char>) -> bool {
    e == "pdf"@ || e == "png"@ || e == "jpg"@ || e == "jpeg"@ || e == "webp"@ || e == "bmp"@ || e == "gif"@
        || e == "mp4"@ || e == "mov"@ || e == "m4v"@
}

/// Whether sources may have this file extension (see `supported_source_extension`).
pub fn is_supported_source_extension(extension: &str) -> (r: bool)
    ensures
        r == supported_source_extension(extension@),
{
    let e = chars_of(extension);
    chars_eq(&e, &chars_of("pdf")) || chars_eq(&e, &chars_of("png")) || chars_eq(&e, &chars_of("jpg")) || chars_eq(
        &e,
        &chars_of("jpeg"),
    ) || chars_eq(&e, &chars_of("webp")) || chars_eq(&e, &chars_of("bmp")) || chars_eq(&e, &chars_of("gif"))
        || chars_eq(&e, &chars_of("mp4")) || chars_eq(&e, &chars_of("mov")) || chars_eq(&e, &chars_of("m4v"))
}

/// Whether an observed file's extension is supported and admitted by the rules.
pub open spec fn extension_allowed(entry: ObservedSourceFile, rules: SourceRootRulesPayload) -> bool {
    match lower_extension(entry.absolute_path@) {
        None => false,
        Some(e) => supported_source_extension(e) && (rules.include_extensions.len() == 0 || string_views(
            rules.include_extensions@,
        ).contains(e)),
    }
}

fn strings_contain(v: &Vec<String>, s: &String) -> (r: bool)
    ensures
        r == string_views(v@).contains(s@),
{
    let mut i: usize = 0;
    while i < v.len()
        invariant
            i <= v.len(),
            forall|k: int| 0 <= k < i ==> v@[k]@ != s@,
        decreases v.len() - i,
    {
        if v[i] == *s {
            assert(string_views(v@)[i as int] == s@);
            return true;
        }
        i = i + 1;
    }
    assert forall|k: int| 0 <= k < string_views(v@).len() implies string_views(v@)[k] != s@ by {
        assert(string_views(v@)[k] == v@[k]@);
    }
    false
}

/// Whether an observed file's extension is allowed (see `extension_allowed`).
pub fn observed_entry_extension_allowed(entry: &ObservedSourceFile, rules: &SourceRootRulesPayload) -> (r: bool)
    ensures
        r == extension_allowed(*entry, *rules),
{
    let extension = match lower_extension_of(entry.absolute_path.as_str()) {
        None => {
            return false;
        },
        Some(e) => e,
    };
    if !is_supported_source_extension(extension.as_str()) {
        return false;
    }
    rules.include_extensions.len() == 0 || strings_contain(&rules.include_extensions, &extension)
}

/// Whether an observed file is in the scope of the rules: its path is admitted and its
/// extension allowed.
pub open spec fn entry_in_scope(entry: ObservedSourceFile, rules: SourceRootRulesPayload) -> bool {
    rules_allow_path(entry.relative_path@, rules) && extension_allowed(entry, rules)
}

/// Whether an observed file is in the scope of the rules (see `entry_in_scope`).
pub fn observed_entry_is_in_scope(entry: &ObservedSourceFile, rules: &SourceRootRulesPayload) -> (r: bool)
    requires
        entry.relative_path@.len() < usize::MAX,
    ensures
        r == entry_in_scope(*entry, *rules),
{
    source_root_rules_allow_path(entry.relative_path.as_str(), rules) && observed_entry_extension_allowed(entry, rules)
}

/// The number of observed files in the scope of the rules.
pub open spec fn in_scope_count(entries: Seq<(String, ObservedSourceFile)>, rules: SourceRootRulesPayload) -> nat
    decreases entries.len(),
{
    if entries.len() == 0 {
        0
    } else {
        in_scope_count(entries.drop_last(), rules) + if entry_in_scope(entries.last().1, rules) { 1nat } else { 0nat }
    }
}

/// The relative paths of observed files fit in memory.
pub open spec fn paths_fit(entries: Seq<(String, ObservedSourceFile)>) -> bool {
    forall|i: int| 0 <= i < entries.len() ==> (#[trigger] entries[i]).1.relative_path@.len() < usize::MAX
}

/// The number of observed files in the scope of the rules (see `in_scope_count`).
pub fn count_matched_observed_entries(observed_entries: &Vec<(String, ObservedSourceFile)>, rules: &SourceRootRulesPayload) -> (r: usize)
    requires
        paths_fit(observed_entries@),
    ensures
        r == in_scope_count(observed_entries@, *rules),
{
    let mut n: usize = 0;
    let mut i: usize = 0;
    while i < observed_entries.len()
        invariant
            i <= observed_entries.len(),
            paths_fit(observed_entries@),
            n == in_scope_count(observed_entries@.take(i as int), *rules),
            n <= i,
        decreases observed_entries.len() - i,
    {
        assert(observed_entries@.take(i + 1).drop_last() =~= observed_entries@.take(i as int));
        assert(observed_entries@[i as int].1.relative_path@.len() < usize::MAX);
        if observed_entry_is_in_scope(&observed_entries[i].1, rules) {
            n = n + 1;
        }
        i = i + 1;
    }
    assert(observed_entries@.take(observed_entries.len() as int) =~= observed_entries@);
    n
}

/// Why an observed file is out of scope: excluded by the path rules, an unsupported type, an
/// extension that the rules filter out, or (when none of these) outside the coverage.
pub open spec fn out_of_scope_reason(observed: ObservedSourceFile, rules: SourceRootRulesPayload) -> Seq<char> {
    if !rules_allow_path(observed.relative_path@, rules) {
        "rule_excluded"@
    } else {
        match lower_extension(observed.absolute_path@) {
            None => "unsupported_type"@,
            Some(e) => if !supported_source_extension(e) {
                "unsupported_type"@
            } else if rules.include_extensions.len() > 0 && !string_views(rules.include_extensions@).contains(e) {
                "extension_filtered"@
            } else {
                "outside_coverage"@
            },
        }
    }
}

/// The status (`out_of_scope`) and reason of an observed file that is not indexed (see
/// `out_of_scope_reason`).
pub fn out_of_scope_status_reason(observed: &ObservedSourceFile, rules: &SourceRootRulesPayload) -> (r: (String, Option<String>))
    requires
        observed.relative_path@.len() < usize::MAX,
    ensures
        r.0@ == "out_of_scope"@,
        opt_view(r.1) == Some(out_of_scope_reason(*observed, *rules)),
{
    let status = "out_of_scope".to_owned();
    if !source_root_rules_allow_path(observed.relative_path.as_str(), rules) {
        return (status, Some("rule_excluded".to_owned()));
    }
    let extension = match lower_extension_of(observed.absolute_path.as_str()) {
        None => {
            return (status, Some("unsupported_type".to_owned()));
        },
        Some(e) => e,
    };
    if !is_supported_source_extension(extension.as_str()) {
        return (status, Some("unsupported_type".to_owned()));
    }
    if rules.include_extensions.len() > 0 && !strings_contain(&rules.include_extensions, &extension) {
        return (status, Some("extension_filtered".to_owned()));
    }
    (status, Some("outside_coverage".to_owned()))
}


/// What tells two observations of a file apart: its size and modification time.
pub open spec fn signature(e: ObservedSourceFile) -> (u64, Option<u128>) {
    (e.size_bytes, e.modified_at_ms)
}

/// The signature of an observed file.
pub fn observed_signature(entry: &ObservedSourceFile) -> (r: (u64, Option<u128>))
    ensures
        r == signature(*entry),
{
    (entry.size_bytes, entry.modified_at_ms)
}

/// The signature of the file observed under a path, if any.
pub open spec fn signature_at(entries: Seq<(String, ObservedSourceFile)>, path: Seq<char>) -> Option<(u64, Option<u128>)> {
    match lookup(entries, path) {
        Some(e) => Some(signature(e)),
        None => None,
    }
}

/// The keys of a map held as entries.
pub open spec fn entry_keys<T>(entries: Seq<(String, T)>) -> Seq<Seq<char>> {
    entries.map_values(|p: (String, T)| p.0@)
}

/// The paths among `keys` whose signatures differ between the two observations.
pub open spec fn changed_among(keys: Seq<Seq<char>>, previous: Seq<(String, ObservedSourceFile)>, current: Seq<(String, ObservedSourceFile)>) -> Set<Seq<char>> {
    keys.to_set().filter(|k: Seq<char>| signature_at(previous, k) != signature_at(current, k))
}

/// Comparing an observation with itself finds no change.
pub proof fn lemma_same_observation_unchanged(keys: Seq<Seq<char>>, entries: Seq<(String, ObservedSourceFile)>)
    ensures
        changed_among(keys, entries, entries) == Set::<Seq<char>>::empty(),
{
    assert(changed_among(keys, entries, entries) =~= Set::<Seq<char>>::empty());
}

/// Which paths changed does not depend on which observation came first.
pub proof fn lemma_changes_symmetric(
    keys: Seq<Seq<char>>,
    previous: Seq<(String, ObservedSourceFile)>,
    current: Seq<(String, ObservedSourceFile)>,
)
    ensures
        changed_among(keys, previous, current) == changed_among(keys, current, previous),
{
    assert(changed_among(keys, previous, current) =~= changed_among(keys, current, previous));
}

/// A path that appears or disappears between two observations counts as changed.
pub proof fn lemma_added_or_removed_path_changed(
    keys: Seq<Seq<char>>,
    previous: Seq<(String, ObservedSourceFile)>,
    current: Seq<(String, ObservedSourceFile)>,
    path: Seq<char>,
)
    requires
        keys.contains(path),
        signature_at(previous, path) is None <==> signature_at(current, path) is Some,
    ensures
        changed_among(keys, previous, current).contains(path),
{
}

fn signature_of(entries: &Vec<(String, ObservedSourceFile)>, path: &String) -> (r: Option<(u64, Option<u128>)>)
    ensures
        r == signature_at(entries@, path@),
{
    match find_entry(entries, &chars_of(path.as_str())) {
        Some(i) => Some(observed_signature(&entries[i].1)),
        None => None,
    }
}

fn add_changed(changed: &mut Vec<String>, keys_from: &Vec<(String, ObservedSourceFile)>, previous: &Vec<(String, ObservedSourceFile)>, current: &Vec<(String, ObservedSourceFile)>)
    requires
        is_sorted_set(old(changed)@),
    ensures
        is_sorted_set(final(changed)@),
        set_of(final(changed)@) == set_of(old(changed)@).union(changed_among(entry_keys(keys_from@), previous@, current@)),
{
    let ghost start = set_of(changed@);
    let ghost ks = entry_keys(keys_from@);
    let mut i: usize = 0;
    assert(changed_among(ks.take(0), previous@, current@) =~= Set::<Seq<char>>::empty());
    while i < keys_from.len()
        invariant
            i <= keys_from.len(),
            ks == entry_keys(keys_from@),
            is_sorted_set(changed@),
            set_of(changed@) == start.union(changed_among(ks.take(i as int), previous@, current@)),
        decreases keys_from.len() - i,
    {
        let path = &keys_from[i].0;
        assert(ks[i as int] == path@);
        assert(ks.take(i + 1).to_set() =~= ks.take(i as int).to_set().insert(path@)) by {
            assert(ks.take(i + 1) =~= ks.take(i as int).push(path@));
            ks.take(i as int).lemma_push_to_set_commute(path@);
        }
        let differs = signature_of(previous, path) != signature_of(current, path);
        if differs {
            insert_sorted(changed, path.clone());
        }
        assert(changed_among(ks.take(i + 1), previous@, current@) =~= if differs {
            changed_among(ks.take(i as int), previous@, current@).insert(path@)
        } else {
            changed_among(ks.take(i as int), previous@, current@)
        });
        i = i + 1;
    }
    assert(ks.take(keys_from.len() as int) =~= ks);
}

/// The paths whose observation changed between two scans: present in either scan, with a
/// different signature (or present in only one).
pub fn diff_observed_entries(previous: &Vec<(String, ObservedSourceFile)>, current: &Vec<(String, ObservedSourceFile)>) -> (r: Vec<String>)
    ensures
        is_sorted_set(r@),
        set_of(r@) == changed_among(entry_keys(previous@) + entry_keys(current@), previous@, current@),
{
    let mut changed: Vec<String> = Vec::new();
    assert(set_of(changed@) =~= Set::<Seq<char>>::empty());
    add_changed(&mut changed, previous, previous, current);
    add_changed(&mut changed, current, previous, current);
    proof {
        let a = entry_keys(previous@);
        let b = entry_keys(current@);
        vstd::seq_lib::seq_to_set_distributes_over_add(a, b);
        assert(set_of(changed@) =~= changed_among(a + b, previous@, current@));
    }
    changed
}


/// A candidate file is unchanged when its existing source is active and was observed with
/// the same size and modification time.
pub open spec fn candidate_unchanged(e: ObservedSourceFile, existing: Option<SourceRecord>) -> bool {
    match existing {
        Some(src) => src.status@ == "active"@ && src.observed_size_bytes == Some(e.size_bytes)
            && src.observed_modified_at_ms == e.modified_at_ms,
        None => false,
    }
}

/// The candidate paths that a refresh must process: those not unchanged.
pub open spec fn stale_candidates(candidates: Seq<(String, ObservedSourceFile)>, existing: Seq<(String, SourceRecord)>) -> Set<Seq<char>> {
    entry_keys(candidates).to_set().filter(
        |k: Seq<char>| !candidate_unchanged(lookup(candidates, k).unwrap(), lookup(existing, k)),
    )
}

/// The existing paths that are no longer candidates.
pub open spec fn vanished_sources(candidates: Seq<(String, ObservedSourceFile)>, existing: Seq<(String, SourceRecord)>) -> Set<Seq<char>> {
    entry_keys(existing).to_set().filter(|k: Seq<char>| lookup(candidates, k) is None)
}

proof fn lemma_lookup_key<T>(v: Seq<(String, T)>, k: Seq<char>)
    requires
        entry_keys(v).to_set().contains(k),
    ensures
        lookup(v, k) is Some,
    decreases v.len(),
{
    let i = choose|i: int| 0 <= i < entry_keys(v).len() && entry_keys(v)[i] == k;
    if v[0].0@ != k {
        assert(entry_keys(v.drop_first())[i - 1] == k);
        lemma_lookup_key(v.drop_first(), k);
    }
}

fn add_all_keys<T>(set: &mut Vec<String>, entries: &Vec<(String, T)>)
    requires
        is_sorted_set(old(set)@),
    ensures
        is_sorted_set(final(set)@),
        set_of(final(set)@) == set_of(old(set)@).union(entry_keys(entries@).to_set()),
{
    let ghost start = set_of(set@);
    let ghost ks = entry_keys(entries@);
    let mut i: usize = 0;
    assert(ks.take(0).to_set() =~= Set::<Seq<char>>::empty());
    while i < entries.len()
        invariant
            i <= entries.len(),
            ks == entry_keys(entries@),
            is_sorted_set(set@),
            set_of(set@) == start.union(ks.take(i as int).to_set()),
        decreases entries.len() - i,
    {
        assert(ks.take(i + 1) =~= ks.take(i as int).push(entries@[i as int].0@));
        proof {
            ks.take(i as int).lemma_push_to_set_commute(entries@[i as int].0@);
        }
        insert_sorted(set, entries[i].0.clone());
        i = i + 1;
    }
    assert(ks.take(entries.len() as int) =~= ks);
}

/// The relative paths that a source action must process under one source root: every
/// candidate and existing path for a full scan; otherwise the paths already known to have
/// changed under the root, if any are recorded; otherwise the candidates that are not
/// unchanged and the existing paths that are no longer candidates.
pub fn planned_source_action_paths(
    plan: &SourceActionPlan,
    root_id: &str,
    candidate_by_relative_path: &Vec<(String, ObservedSourceFile)>,
    existing_by_relative_path: &Vec<(String, SourceRecord)>,
) -> (r: Vec<String>)
    ensures
        plan.action != SourceActionKind::Refresh ==> is_sorted_set(r@) && set_of(r@) == entry_keys(
            candidate_by_relative_path@,
        ).to_set().union(entry_keys(existing_by_relative_path@).to_set()),
        plan.action == SourceActionKind::Refresh ==> match lookup(plan.changed_paths_by_root@, root_id@) {
            Some(paths) => string_views(r@) == string_views(paths@),
            None => is_sorted_set(r@) && set_of(r@) == stale_candidates(
                candidate_by_relative_path@,
                existing_by_relative_path@,
            ).union(vanished_sources(candidate_by_relative_path@, existing_by_relative_path@)),
        },
{
    let mut affected: Vec<String> = Vec::new();
    assert(set_of(affected@) =~= Set::<Seq<char>>::empty());
    if plan.action.requires_full_scan() {
        add_all_keys(&mut affected, candidate_by_relative_path);
        add_all_keys(&mut affected, existing_by_relative_path);
        assert(set_of(affected@) =~= entry_keys(candidate_by_relative_path@).to_set().union(
            entry_keys(existing_by_relative_path@).to_set(),
        ));
        return affected;
    }
    match find_entry(&plan.changed_paths_by_root, &chars_of(root_id)) {
        Some(i) => {
            let paths = &plan.changed_paths_by_root[i].1;
            let mut copy: Vec<String> = Vec::new();
            let mut k: usize = 0;
            while k < paths.len()
                invariant
                    k <= paths.len(),
                    string_views(copy@) == string_views(paths@).take(k as int),
                decreases paths.len() - k,
            {
                let ghost before = copy@;
                copy.push(paths[k].clone());
                assert(string_views(copy@) =~= string_views(before).push(paths@[k as int]@));
                assert(string_views(paths@).take(k + 1) =~= string_views(paths@).take(k as int).push(paths@[k as int]@));
                k = k + 1;
            }
            assert(string_views(paths@).take(paths.len() as int) =~= string_views(paths@));
            return copy;
        },
        None => {},
    }
    let ghost cands = candidate_by_relative_path@;
    let ghost exist = existing_by_relative_path@;
    let ghost ck = entry_keys(cands);
    let mut i: usize = 0;
    assert(ck.take(0).to_set() =~= Set::<Seq<char>>::empty());
    while i < candidate_by_relative_path.len()
        invariant
            i <= candidate_by_relative_path.len(),
            cands == candidate_by_relative_path@,
            exist == existing_by_relative_path@,
            ck == entry_keys(cands),
            is_sorted_set(affected@),
            set_of(affected@) == stale_candidates(cands, exist).intersect(ck.take(i as int).to_set()),
        decreases candidate_by_relative_path.len() - i,
    {
        let path = &candidate_by_relative_path[i].0;
        let entry = &candidate_by_relative_path[i].1;
        assert(ck[i as int] == path@);
        assert(ck.take(i + 1) =~= ck.take(i as int).push(path@));
        proof {
            ck.take(i as int).lemma_push_to_set_commute(path@);
        }
        let path_chars = chars_of(path.as_str());
        let ghost first = lookup(cands, path@).unwrap();
        proof {
            assert(ck.to_set().contains(path@)) by {
                assert(ck[i as int] == path@);
            }
            lemma_lookup_key(cands, path@);
        }
        let j = find_entry(candidate_by_relative_path, &path_chars).unwrap();
        let e = &candidate_by_relative_path[j].1;
        let unchanged = match find_entry(existing_by_relative_path, &path_chars) {
            Some(x) => {
                let src = &existing_by_relative_path[x].1;
                chars_eq(&chars_of(src.status.as_str()), &chars_of("active")) && src.observed_size_bytes == Some(
                    e.size_bytes,
                ) && src.observed_modified_at_ms == e.modified_at_ms
            },
            None => false,
        };
        if !unchanged {
            insert_sorted(&mut affected, path.clone());
        }
        assert(set_of(affected@) =~= stale_candidates(cands, exist).intersect(ck.take(i + 1).to_set()));
        i = i + 1;
    }
    assert(ck.take(cands.len() as int) =~= ck);
    assert(stale_candidates(cands, exist).intersect(ck.to_set()) =~= stale_candidates(cands, exist));
    let ghost ek = entry_keys(exist);
    let ghost after_candidates = set_of(affected@);
    let mut m: usize = 0;
    assert(ek.take(0).to_set() =~= Set::<Seq<char>>::empty());
    while m < existing_by_relative_path.len()
        invariant
            m <= existing_by_relative_path.len(),
            cands == candidate_by_relative_path@,
            exist == existing_by_relative_path@,
            ek == entry_keys(exist),
            is_sorted_set(affected@),
            set_of(affected@) == after_candidates.union(vanished_sources(cands, exist).intersect(ek.take(m as int).to_set())),
        decreases existing_by_relative_path.len() - m,
    {
        let path = &existing_by_relative_path[m].0;
        assert(ek[m as int] == path@);
        assert(ek.take(m + 1) =~= ek.take(m as int).push(path@));
        proof {
            ek.take(m as int).lemma_push_to_set_commute(path@);
            assert(ek.to_set().contains(path@)) by {
                assert(ek[m as int] == path@);
            }
        }
        let missing = find_entry(candidate_by_relative_path, &chars_of(path.as_str())).is_none();
        if missing {
            insert_sorted(&mut affected, path.clone());
        }
        assert(set_of(affected@) =~= after_candidates.union(vanished_sources(cands, exist).intersect(ek.take(m + 1).to_set())));
        m = m + 1;
    }
    assert(ek.take(exist.len() as int) =~= ek);
    assert(vanished_sources(cands, exist).intersect(ek.to_set()) =~= vanished_sources(cands, exist));
    affected
}


/// A source taken out of the index: its status, reason and observation are replaced and it
/// keeps no assets.
pub fn invalidated_source_record(
    source: SourceRecord,
    status: &str,
    reason: Option<String>,
    observed_size_bytes: Option<u64>,
    observed_modified_at_ms: Option<u128>,
) -> (r: SourceRecord)
    ensures
        r.status@ == status@,
        r.status_reason == reason,
        r.asset_ids@.len() == 0,
        r.observed_size_bytes == observed_size_bytes,
        r.observed_modified_at_ms == observed_modified_at_ms,
        r.id == source.id,
        r.source_root_id == source.source_root_id,
        r.source_root_path == source.source_root_path,
        r.source_path == source.source_path,
        r.source_uri == source.source_uri,
        r.relative_path == source.relative_path,
        r.source_type == source.source_type,
        r.media_type == source.media_type,
        r.kind == source.kind,
        r.page_count == source.page_count,
        r.duration_ms == source.duration_ms,
        r.source_content_id == source.source_content_id,
{
    SourceRecord {
        status: status.to_owned(),
        status_reason: reason,
        asset_ids: Vec::new(),
        observed_size_bytes,
        observed_modified_at_ms,
        ..source
    }
}

/// The numbers of active and of other sources that belong to a source root.
pub open spec fn root_source_counts(sources: Seq<(String, SourceRecord)>, root_id: Seq<char>) -> (nat, nat)
    decreases sources.len(),
{
    if sources.len() == 0 {
        (0, 0)
    } else {
        let (a, b) = root_source_counts(sources.drop_last(), root_id);
        let s = sources.last().1;
        if opt_view(s.source_root_id) == Some(root_id) {
            if s.status@ == "active"@ { (a + 1, b) } else { (a, b + 1) }
        } else {
            (a, b)
        }
    }
}

proof fn lemma_root_source_counts_bound(sources: Seq<(String, SourceRecord)>, root_id: Seq<char>)
    ensures
        root_source_counts(sources, root_id).0 + root_source_counts(sources, root_id).1 <= sources.len(),
    decreases sources.len(),
{
    if sources.len() > 0 {
        lemma_root_source_counts_bound(sources.drop_last(), root_id);
    }
}

/// The numbers of active and of other sources that belong to a source root.
pub fn count_sources_for_root(sources: &Vec<(String, SourceRecord)>, source_root_id: &str) -> (r: (usize, usize))
    ensures
        (r.0 as nat, r.1 as nat) == root_source_counts(sources@, source_root_id@),
{
    let root = chars_of(source_root_id);
    let mut active: usize = 0;
    let mut inactive: usize = 0;
    let mut i: usize = 0;
    while i < sources.len()
        invariant
            i <= sources.len(),
            root@ == source_root_id@,
            (active as nat, inactive as nat) == root_source_counts(sources@.take(i as int), source_root_id@),
        decreases sources.len() - i,
    {
        assert(sources@.take(i + 1).drop_last() =~= sources@.take(i as int));
        proof {
            lemma_root_source_counts_bound(sources@.take(i as int), source_root_id@);
        }
        let s = &sources[i].1;
        let belongs = match &s.source_root_id {
            Some(id) => chars_eq(&chars_of(id.as_str()), &root),
            None => false,
        };
        if belongs {
            if chars_eq(&chars_of(s.status.as_str()), &chars_of("active")) {
                active = active + 1;
            } else {
                inactive = inactive + 1;
            }
        }
        i = i + 1;
    }
    assert(sources@.take(sources.len() as int) =~= sources@);
    (active, inactive)
}

/// The strings among array items.
pub open spec fn array_strings(items: Seq<crate::json::JsonV>) -> Set<Seq<char>>
    decreases items.len(),
{
    if items.len() == 0 {
        Set::empty()
    } else {
        match items.last() {
            crate::json::JsonV::Str(s) => array_strings(items.drop_last()).insert(s),
            _ => array_strings(items.drop_last()),
        }
    }
}

/// The strings that a search filter member holds: a string, or the strings of an array
/// (none when it has none); none for a missing member or another kind of value.
pub open spec fn string_filter(filters: Option<crate::json::JsonV>, key: Seq<char>) -> Option<Set<Seq<char>>> {
    match filters {
        None => None,
        Some(f) => match crate::json::member(f, key) {
            Some(crate::json::JsonV::Str(s)) => Some(set![s]),
            Some(crate::json::JsonV::Array(items)) => if array_strings(items) == Set::<Seq<char>>::empty() {
                None
            } else {
                Some(array_strings(items))
            },
            _ => None,
        },
    }
}

/// The strings of a search filter member as a sorted set (see `string_filter`).
pub fn read_string_filter(filters: Option<&crate::json::Json>, key: &str) -> (r: Option<Vec<String>>)
    ensures
        match string_filter(
            match filters {
                Some(f) => Some(crate::json::json_model(*f)),
                None => None,
            },
            key@,
        ) {
            Some(set) => r matches Some(v) && is_sorted_set(v@) && set_of(v@) == set,
            None => r is None,
        },
{
    let f = match filters {
        Some(f) => f,
        None => {
            return None;
        },
    };
    match crate::json::get_member_of(f, key) {
        Some(crate::json::Json::Str(item)) => {
            let mut v: Vec<String> = Vec::new();
            assert(set_of(v@) =~= Set::<Seq<char>>::empty());
            insert_sorted(&mut v, item.clone());
            assert(set_of(v@) =~= set![item@]);
            Some(v)
        },
        Some(crate::json::Json::Array(items)) => {
            let ghost m = crate::json::items_model(items@);
            let mut v: Vec<String> = Vec::new();
            assert(set_of(v@) =~= Set::<Seq<char>>::empty());
            let mut i: usize = 0;
            assert(m.take(0) =~= Seq::<crate::json::JsonV>::empty());
            while i < items.len()
                invariant
                    i <= items.len(),
                    m == crate::json::items_model(items@),
                    is_sorted_set(v@),
                    set_of(v@) == array_strings(m.take(i as int)),
                decreases items.len() - i,
            {
                assert(m.take(i + 1).drop_last() =~= m.take(i as int));
                assert(m.take(i + 1).last() == crate::json::json_model(items@[i as int]));
                match &items[i] {
                    crate::json::Json::Str(s) => insert_sorted(&mut v, s.clone()),
                    _ => {},
                }
                i = i + 1;
            }
            assert(m.take(items.len() as int) =~= m);
            if v.len() > 0 {
                assert(string_views(v@)[0] == v@[0]@);
                assert(set_of(v@).contains(v@[0]@));
                assert(set_of(v@) != Set::<Seq<char>>::empty());
                Some(v)
            } else {
                assert(set_of(v@) =~= Set::<Seq<char>>::empty());
                None
            }
        },
        _ => None,
    }
}

/// The supported source extensions are exactly pdf, png, jpg, jpeg, webp, bmp, gif, mp4,
/// mov and m4v.
pub proof fn lemma_supported_source_extensions(e: Seq<char>)
    ensures
        supported_source_extension(e) <==> seq!["pdf"@, "png"@, "jpg"@, "jpeg"@, "webp"@, "bmp"@, "gif"@, "mp4"@, "mov"@, "m4v"@].contains(e),
{
    let l = seq!["pdf"@, "png"@, "jpg"@, "jpeg"@, "webp"@, "bmp"@, "gif"@, "mp4"@, "mov"@, "m4v"@];
    if supported_source_extension(e) {
        if e == "pdf"@ { assert(l[0] == e); }
        else if e == "png"@ { assert(l[1] == e); }
        else if e == "jpg"@ { assert(l[2] == e); }
        else if e == "jpeg"@ { assert(l[3] == e); }
        else if e == "webp"@ { assert(l[4] == e); }
        else if e == "bmp"@ { assert(l[5] == e); }
        else if e == "gif"@ { assert(l[6] == e); }
        else if e == "mp4"@ { assert(l[7] == e); }
        else if e == "mov"@ { assert(l[8] == e); }
        else { assert(l[9] == e); }
    }
    if l.contains(e) {
        let i = choose|i: int| 0 <= i < l.len() && l[i] == e;
        assert(0 <= i < 10);
    }
}

/// Under rules that name no extensions, a file whose path the rules admit is in scope
/// exactly when its lowercased extension is one of the supported source extensions: a
/// `.jpg` file is indexed.
pub proof fn lemma_scope_by_supported_extension(entry: ObservedSourceFile, rules: SourceRootRulesPayload)
    requires
        rules.include_extensions.len() == 0,
        rules_allow_path(entry.relative_path@, rules),
    ensures
        entry_in_scope(entry, rules) <==> (lower_extension(entry.absolute_path@) matches Some(x) && seq![
            "pdf"@,
            "png"@,
            "jpg"@,
            "jpeg"@,
            "webp"@,
            "bmp"@,
            "gif"@,
            "mp4"@,
            "mov"@,
            "m4v"@,
        ].contains(x)),
{
    match lower_extension(entry.absolute_path@) {
        Some(x) => lemma_supported_source_extensions(x),
        None => {},
    }
}

/// On a refresh without recorded changes, a candidate is planned exactly when it is not
/// unchanged: a candidate with no source, or whose source is not active, is always
/// reprocessed, whatever its size and modification time; a candidate whose active source was
/// observed with the same size and modification time is skipped.
pub proof fn lemma_refresh_reprocesses_stale(
    candidates: Seq<(String, ObservedSourceFile)>,
    existing: Seq<(String, SourceRecord)>,
    k: Seq<char>,
)
    requires
        entry_keys(candidates).to_set().contains(k),
    ensures
        lookup(existing, k) is None ==> stale_candidates(candidates, existing).contains(k),
        (lookup(existing, k) matches Some(src) && src.status@ != "active"@) ==> stale_candidates(candidates, existing).contains(k),
        (lookup(existing, k) matches Some(src) && src.status@ == "active"@ && src.observed_size_bytes == Some(
            lookup(candidates, k).unwrap().size_bytes,
        ) && src.observed_modified_at_ms == lookup(candidates, k).unwrap().modified_at_ms) ==> !stale_candidates(
            candidates,
            existing,
        ).contains(k),
{
}

} // verus!
