use vstd::prelude::*;
use crate::api_error::{api_error_is, ApiError};
use crate::config::{find_entry, lookup, opt_view};
use crate::query_assets::{unit_preview_url, visual_unit_preview_reference, PreviewReference};
use crate::search_debug::{
    content_types_debug, content_types_debug_is, prefilter_debug, prefilter_is, vector_spaces_debug,
    vector_spaces_debug_is, ContentTypeDebug, PrefilterDebug, SearchContentTypeDebugEntry, VectorSpaceDebug,
    VectorSpaceExecutionGroup,
};
use crate::json::{
    clone_json, empty_members, json_model, json_string, pairs_insert, put_member, string_views, u64_field, u64_member,
    Json, JsonV,
};
use crate::text::{append_chars, append_str, chars_eq, chars_of, decimal, decimal_chars, starts_with, starts_with_chars, string_of};

verus! {

/// The cursor that resumes a search after `offset` results.
pub open spec fn search_cursor(offset: nat) -> Seq<char> {
    "search:v1:"@ + decimal(offset)
}

/// The cursor that resumes a search after `offset` results (see `search_cursor`).
pub fn encode_search_cursor(offset: usize) -> (r: String)
    ensures
        r@ == search_cursor(offset as nat),
{
    let mut c = chars_of("search:v1:");
    append_chars(&mut c, &decimal_chars(offset as u64));
    string_of(&c)
}

/// Whether an asset of this type belongs to a content type.
pub open spec fn content_type_covers(content_type: Seq<char>, asset_type: Seq<char>) -> bool {
    if content_type == "image"@ {
        asset_type == "image"@
    } else if content_type == "document"@ {
        asset_type == "document_page"@
    } else if content_type == "video"@ {
        asset_type == "video_segment"@
    } else if content_type == "text"@ {
        asset_type == "text"@
    } else {
        false
    }
}

/// Whether an asset of this type belongs to a content type (see `content_type_covers`).
pub fn content_type_matches_asset(content_type: &str, asset_type: &str) -> (r: bool)
    ensures
        r == content_type_covers(content_type@, asset_type@),
{
    let c = chars_of(content_type);
    let a = chars_of(asset_type);
    if chars_eq(&c, &chars_of("image")) {
        chars_eq(&a, &chars_of("image"))
    } else if chars_eq(&c, &chars_of("document")) {
        chars_eq(&a, &chars_of("document_page"))
    } else if chars_eq(&c, &chars_of("video")) {
        chars_eq(&a, &chars_of("video_segment"))
    } else if chars_eq(&c, &chars_of("text")) {
        chars_eq(&a, &chars_of("text"))
    } else {
        false
    }
}

/// A time window that search results must overlap.
#[derive(Debug, Clone, Copy, PartialEq, Eq, Structural)]
pub struct SearchTimeRangeFilter {
    pub start_ms: u64,
    pub end_ms: u64,
}

/// Whether a locator's time span overlaps the window; a locator without integer
/// `start_ms` and `end_ms` does not.
pub open spec fn overlaps_time_range(locator: JsonV, filter: SearchTimeRangeFilter) -> bool {
    match (u64_member(locator, "start_ms"@), u64_member(locator, "end_ms"@)) {
        (Some(s), Some(e)) => s <= filter.end_ms && e >= filter.start_ms,
        _ => false,
    }
}

/// Whether a locator's time span overlaps the window (see `overlaps_time_range`).
pub fn payload_overlaps_time_range(locator: &Json, filter: SearchTimeRangeFilter) -> (r: bool)
    ensures
        r == overlaps_time_range(json_model(*locator), filter),
{
    let start = match u64_field(locator, "start_ms") {
        Some(s) => s,
        None => {
            return false;
        },
    };
    let end = match u64_field(locator, "end_ms") {
        Some(e) => e,
        None => {
            return false;
        },
    };
    start <= filter.end_ms && end >= filter.start_ms
}

/// Where an asset found by a search lives.
#[derive(Debug)]
pub struct SearchPlanAssetLocation {
    pub source_id: String,
    pub source_uri: String,
    pub source_type: String,
    pub locator: Json,
}

/// What a search admits and which page it returns.
#[derive(Debug)]
pub struct SearchPlan {
    pub library_id: String,
    pub top_k: usize,
    pub cursor_offset: usize,
    pub kind_filter: Option<Vec<String>>,
    pub path_prefix_filter: Option<Vec<String>>,
    pub source_type_filter: Option<Vec<String>>,
    pub time_range_filter: Option<SearchTimeRangeFilter>,
    /// The active assets, as `library_id:asset_id`.
    pub active_asset_refs: Vec<String>,
    /// The active unit indexes, as `unit_id::vector_space_id`.
    pub active_unit_index_refs: Vec<String>,
    /// The locations of active assets, by `library_id:asset_id`.
    pub asset_locations: Vec<(String, SearchPlanAssetLocation)>,
    /// The content types the search asked for that no model can serve here.
    pub unsupported_content_types: Vec<UnsupportedContentTypeSnapshot>,
    /// The vector spaces searched, one group per library and vector space.
    pub execution_groups: Vec<VectorSpaceExecutionGroup>,
    /// The content types whose raw scores a debug search reports.
    pub debug_content_types: Vec<SearchContentTypeDebugEntry>,
    pub debug: bool,
}

/// A content type that a search asked for and that cannot be searched in a library, with
/// the reason.
#[derive(Debug)]
pub struct UnsupportedContentTypeSnapshot {
    pub library_id: String,
    pub content_type: String,
    pub reason: String,
}

/// The views of unsupported content types.
pub open spec fn unsupported_views(v: Seq<UnsupportedContentTypeSnapshot>) -> Seq<(Seq<char>, Seq<char>, Seq<char>)> {
    v.map_values(|u: UnsupportedContentTypeSnapshot| (u.library_id@, u.content_type@, u.reason@))
}

fn copy_unsupported(v: &Vec<UnsupportedContentTypeSnapshot>) -> (r: Vec<UnsupportedContentTypeSnapshot>)
    ensures
        unsupported_views(r@) == unsupported_views(v@),
{
    let mut r: Vec<UnsupportedContentTypeSnapshot> = Vec::new();
    let mut i: usize = 0;
    while i < v.len()
        invariant
            i <= v.len(),
            unsupported_views(r@) == unsupported_views(v@).take(i as int),
        decreases v.len() - i,
    {
        let u = &v[i];
        let ghost before = unsupported_views(r@);
        r.push(UnsupportedContentTypeSnapshot {
            library_id: u.library_id.clone(),
            content_type: u.content_type.clone(),
            reason: u.reason.clone(),
        });
        assert(unsupported_views(r@) =~= before.push((u.library_id@, u.content_type@, u.reason@)));
        i = i + 1;
        assert(unsupported_views(v@).take(i as int) =~= before.push((u.library_id@, u.content_type@, u.reason@)));
    }
    assert(unsupported_views(v@).take(v.len() as int) =~= unsupported_views(v@));
    r
}

/// What an indexed point says of the unit it stands for.
#[derive(Debug)]
pub struct CandidatePayload {
    pub unit_id: String,
    pub asset_id: String,
    pub asset_type: String,
    pub unit_type: String,
}

/// A point that a vector search returned, with its score as the bits of the `f32`.
#[derive(Debug)]
pub struct ScoredPoint {
    pub score_bits: u32,
    pub payload: Option<CandidatePayload>,
}

/// The key by which `f32::total_cmp` orders scores with these bits: comparing keys as
/// signed integers orders the scores.
pub open spec fn total_order_key(bits: u32) -> i32 {
    (bits as i32) ^ ((((bits as i32) >> 31u32) as u32 >> 1u32) as i32)
}

/// The total-order key of a score (see `total_order_key`).
pub fn score_key(bits: u32) -> (r: i32)
    ensures
        r == total_order_key(bits),
{
    let l = bits as i32;
    l ^ ((((l >> 31u32) as u32) >> 1u32) as i32)
}

/// The points that one vector space returned for a search.
#[derive(Debug)]
pub struct ExecutedSearchGroup {
    pub library_id: String,
    pub vector_space_id: String,
    pub query_vector_count: usize,
    pub candidates: Vec<ScoredPoint>,
}

/// A candidate result: a point with a payload, its rank within its group (from 1), its
/// group's vector space and library.
#[derive(Debug)]
pub struct SearchHit {
    pub score_bits: u32,
    pub vector_space_id: String,
    pub rank: usize,
    pub library_id: String,
    pub unit_id: String,
    pub asset_id: String,
    pub asset_type: String,
    pub unit_type: String,
}

/// The reference of an asset within a library: `library_id:asset_id`.
pub open spec fn scoped_asset_ref(library_id: Seq<char>, asset_id: Seq<char>) -> Seq<char> {
    library_id + ":"@ + asset_id
}

/// The reference of a unit's index in a vector space: `unit_id::vector_space_id`.
pub open spec fn unit_index_ref(unit_id: Seq<char>, vector_space_id: Seq<char>) -> Seq<char> {
    unit_id + "::"@ + vector_space_id
}

/// Whether an optional filter set admits a value: a missing filter admits everything.
pub open spec fn filter_admits(filter: Option<Vec<String>>, value: Seq<char>) -> bool {
    match filter {
        Some(v) => string_views(v@).contains(value),
        None => true,
    }
}

/// Whether one of the prefixes starts a URI.
pub open spec fn any_prefix(prefixes: Seq<Seq<char>>, uri: Seq<char>) -> bool {
    exists|i: int| 0 <= i < prefixes.len() && starts_with(uri, #[trigger] prefixes[i])
}

/// The model of a candidate result.
pub struct HitV {
    pub score_bits: u32,
    pub vector_space_id: Seq<char>,
    pub rank: nat,
    pub library_id: Seq<char>,
    pub unit_id: Seq<char>,
    pub asset_id: Seq<char>,
    pub asset_type: Seq<char>,
    pub unit_type: Seq<char>,
}

/// The model of an exec candidate result.
pub open spec fn hit_view(h: SearchHit) -> HitV {
    HitV {
        score_bits: h.score_bits,
        vector_space_id: h.vector_space_id@,
        rank: h.rank as nat,
        library_id: h.library_id@,
        unit_id: h.unit_id@,
        asset_id: h.asset_id@,
        asset_type: h.asset_type@,
        unit_type: h.unit_type@,
    }
}

/// The models of exec candidate results.
pub open spec fn hit_views(hs: Seq<SearchHit>) -> Seq<HitV> {
    hs.map_values(|h: SearchHit| hit_view(h))
}

/// The candidates of one group's points, in order: each point with a payload, ranked by its
/// position among all the group's points.
pub open spec fn group_hits(library_id: Seq<char>, vector_space_id: Seq<char>, points: Seq<ScoredPoint>) -> Seq<HitV>
    decreases points.len(),
{
    if points.len() == 0 {
        seq![]
    } else {
        let rest = group_hits(library_id, vector_space_id, points.drop_last());
        match points.last().payload {
            Some(p) => rest.push(
                HitV {
                    score_bits: points.last().score_bits,
                    vector_space_id,
                    rank: points.len(),
                    library_id,
                    unit_id: p.unit_id@,
                    asset_id: p.asset_id@,
                    asset_type: p.asset_type@,
                    unit_type: p.unit_type@,
                },
            ),
            None => rest,
        }
    }
}

/// The candidates of all groups, group after group.
pub open spec fn all_hits(groups: Seq<ExecutedSearchGroup>) -> Seq<HitV>
    decreases groups.len(),
{
    if groups.len() == 0 {
        seq![]
    } else {
        all_hits(groups.drop_last()) + group_hits(
            groups.last().library_id@,
            groups.last().vector_space_id@,
            groups.last().candidates@,
        )
    }
}

/// Whether a candidate passes the plan: its asset has an active location and is active,
/// its unit is indexed in its vector space, and it passes the kind, source type, path prefix
/// and time filters that the plan sets.
pub open spec fn hit_passes(plan: SearchPlan, h: HitV) -> bool {
    let scoped = scoped_asset_ref(h.library_id, h.asset_id);
    match lookup(plan.asset_locations@, scoped) {
        None => false,
        Some(loc) => {
            &&& string_views(plan.active_asset_refs@).contains(scoped)
            &&& string_views(plan.active_unit_index_refs@).contains(unit_index_ref(h.unit_id, h.vector_space_id))
            &&& filter_admits(plan.kind_filter, h.asset_type)
            &&& filter_admits(plan.source_type_filter, loc.source_type@)
            &&& match plan.path_prefix_filter {
                Some(p) => any_prefix(string_views(p@), loc.source_uri@),
                None => true,
            }
            &&& match plan.time_range_filter {
                Some(f) => overlaps_time_range(json_model(loc.locator), f),
                None => true,
            }
        },
    }
}

/// The candidates that pass the plan, in order.
pub open spec fn passing_hits(plan: SearchPlan, hs: Seq<HitV>) -> Seq<HitV>
    decreases hs.len(),
{
    if hs.len() == 0 {
        seq![]
    } else {
        let rest = passing_hits(plan, hs.drop_last());
        if hit_passes(plan, hs.last()) { rest.push(hs.last()) } else { rest }
    }
}

/// `sorted` with `h` inserted after every candidate whose score is not below `h`'s.
pub open spec fn insert_by_score(sorted: Seq<HitV>, h: HitV) -> Seq<HitV>
    decreases sorted.len(),
{
    if sorted.len() == 0 {
        seq![h]
    } else if total_order_key(sorted[0].score_bits) < total_order_key(h.score_bits) {
        seq![h] + sorted
    } else {
        seq![sorted[0]] + insert_by_score(sorted.drop_first(), h)
    }
}

/// Candidates ordered by descending score, ties kept in their order (a stable sort).
pub open spec fn by_score(hs: Seq<HitV>) -> Seq<HitV>
    decreases hs.len(),
{
    if hs.len() == 0 {
        seq![]
    } else {
        insert_by_score(by_score(hs.drop_last()), hs.last())
    }
}

/// Whether a list of strings holds `s`.
pub fn contains_string(v: &Vec<String>, s: &Vec<char>) -> (r: bool)
    ensures
        r == string_views(v@).contains(s@),
{
    let mut i: usize = 0;
    while i < v.len()
        invariant
            i <= v.len(),
            forall|k: int| 0 <= k < i ==> v@[k]@ != s@,
        decreases v.len() - i,
    {
        if chars_eq(&chars_of(v[i].as_str()), s) {
            assert(string_views(v@)[i as int] == s@);
            return true;
        }
        i = i + 1;
    }
    assert forall|k: int| 0 <= k < string_views(v@).len() implies string_views(v@)[k] != s@ by {
        assert(string_views(v@)[k] == v@[k]@);
    }
    false
}

fn any_prefix_of(prefixes: &Vec<String>, uri: &Vec<char>) -> (r: bool)
    ensures
        r == any_prefix(string_views(prefixes@), uri@),
{
    let mut i: usize = 0;
    while i < prefixes.len()
        invariant
            i <= prefixes.len(),
            forall|k: int| 0 <= k < i ==> !starts_with(uri@, #[trigger] string_views(prefixes@)[k]),
        decreases prefixes.len() - i,
    {
        assert(string_views(prefixes@)[i as int] == prefixes@[i as int]@);
        if starts_with_chars(uri, &chars_of(prefixes[i].as_str())) {
            return true;
        }
        i = i + 1;
    }
    false
}

fn scoped_ref_of(library_id: &String, asset_id: &String) -> (r: Vec<char>)
    ensures
        r@ == scoped_asset_ref(library_id@, asset_id@),
{
    let mut r = chars_of(library_id.as_str());
    append_str(&mut r, ":");
    append_chars(&mut r, &chars_of(asset_id.as_str()));
    r
}

/// Whether a candidate passes the plan (see `hit_passes`).
pub fn search_payload_matches_filters(plan: &SearchPlan, hit: &SearchHit) -> (r: bool)
    ensures
        r == hit_passes(*plan, hit_view(*hit)),
{
    let scoped = scoped_ref_of(&hit.library_id, &hit.asset_id);
    let location = match find_entry(&plan.asset_locations, &scoped) {
        Some(i) => &plan.asset_locations[i].1,
        None => {
            return false;
        },
    };
    if !contains_string(&plan.active_asset_refs, &scoped) {
        return false;
    }
    let mut unit_ref = chars_of(hit.unit_id.as_str());
    append_str(&mut unit_ref, "::");
    append_chars(&mut unit_ref, &chars_of(hit.vector_space_id.as_str()));
    if !contains_string(&plan.active_unit_index_refs, &unit_ref) {
        return false;
    }
    match &plan.kind_filter {
        Some(k) => {
            if !contains_string(k, &chars_of(hit.asset_type.as_str())) {
                return false;
            }
        },
        None => {},
    }
    match &plan.source_type_filter {
        Some(k) => {
            if !contains_string(k, &chars_of(location.source_type.as_str())) {
                return false;
            }
        },
        None => {},
    }
    match &plan.path_prefix_filter {
        Some(p) => {
            if !any_prefix_of(p, &chars_of(location.source_uri.as_str())) {
                return false;
            }
        },
        None => {},
    }
    match plan.time_range_filter {
        Some(f) => payload_overlaps_time_range(&location.locator, f),
        None => true,
    }
}


fn push_group_hits(hits: &mut Vec<SearchHit>, group: &ExecutedSearchGroup)
    ensures
        hit_views(final(hits)@) == hit_views(old(hits)@) + group_hits(
            group.library_id@,
            group.vector_space_id@,
            group.candidates@,
        ),
{
    let ghost start = hit_views(hits@);
    let ghost pts = group.candidates@;
    let mut i: usize = 0;
    assert(pts.take(0) =~= Seq::<ScoredPoint>::empty());
    assert(start + seq![] =~= start);
    while i < group.candidates.len()
        invariant
            i <= group.candidates.len(),
            pts == group.candidates@,
            hit_views(hits@) == start + group_hits(group.library_id@, group.vector_space_id@, pts.take(i as int)),
        decreases group.candidates.len() - i,
    {
        assert(pts.take(i + 1).drop_last() =~= pts.take(i as int));
        assert(pts.take(i + 1).last() == pts[i as int]);
        let point = &group.candidates[i];
        match &point.payload {
            Some(p) => {
                let ghost before = hit_views(hits@);
                hits.push(
                    SearchHit {
                        score_bits: point.score_bits,
                        vector_space_id: group.vector_space_id.clone(),
                        rank: i + 1,
                        library_id: group.library_id.clone(),
                        unit_id: p.unit_id.clone(),
                        asset_id: p.asset_id.clone(),
                        asset_type: p.asset_type.clone(),
                        unit_type: p.unit_type.clone(),
                    },
                );
                assert(hit_views(hits@) =~= before.push(hit_view(hits@[hits.len() - 1])));
            },
            None => {},
        }
        i = i + 1;
    }
    assert(pts.take(group.candidates.len() as int) =~= pts);
}

/// The candidates of all groups (see `all_hits`).
pub fn collect_hits(groups: &Vec<ExecutedSearchGroup>) -> (r: Vec<SearchHit>)
    ensures
        hit_views(r@) == all_hits(groups@),
{
    let mut hits: Vec<SearchHit> = Vec::new();
    let mut g: usize = 0;
    assert(hit_views(hits@) =~= all_hits(groups@.take(0)));
    while g < groups.len()
        invariant
            g <= groups.len(),
            hit_views(hits@) == all_hits(groups@.take(g as int)),
        decreases groups.len() - g,
    {
        assert(groups@.take(g + 1).drop_last() =~= groups@.take(g as int));
        assert(groups@.take(g + 1).last() == groups@[g as int]);
        push_group_hits(&mut hits, &groups[g]);
        g = g + 1;
    }
    assert(groups@.take(groups.len() as int) =~= groups@);
    hits
}

fn insert_hit(sorted: &mut Vec<SearchHit>, h: SearchHit)
    ensures
        hit_views(final(sorted)@) == insert_by_score(hit_views(old(sorted)@), hit_view(h)),
{
    let ghost s0 = hit_views(sorted@);
    let key = score_key(h.score_bits);
    let mut i: usize = 0;
    assert(s0.skip(0) =~= s0);
    assert(s0.take(0) + insert_by_score(s0, hit_view(h)) =~= insert_by_score(s0, hit_view(h)));
    while i < sorted.len() && !(score_key(sorted[i].score_bits) < key)
        invariant
            i <= sorted.len(),
            s0 == hit_views(sorted@),
            key == total_order_key(h.score_bits),
            insert_by_score(s0, hit_view(h)) == s0.take(i as int) + insert_by_score(s0.skip(i as int), hit_view(h)),
        decreases sorted.len() - i,
    {
        let ghost rest = s0.skip(i as int);
        assert(rest[0] == hit_view(sorted@[i as int]));
        assert(rest.drop_first() =~= s0.skip(i + 1));
        assert(s0.take(i + 1) =~= s0.take(i as int).push(rest[0]));
        assert(insert_by_score(rest, hit_view(h)) == seq![rest[0]] + insert_by_score(s0.skip(i + 1), hit_view(h)));
        assert(s0.take(i as int) + (seq![rest[0]] + insert_by_score(s0.skip(i + 1), hit_view(h))) =~= s0.take(i + 1)
            + insert_by_score(s0.skip(i + 1), hit_view(h)));
        i = i + 1;
    }
    let ghost hv = hit_view(h);
    sorted.insert(i, h);
    proof {
        let rest = s0.skip(i as int);
        if i < s0.len() {
            assert(rest[0] == s0[i as int]);
            assert(insert_by_score(rest, hv) == seq![hv] + rest);
        } else {
            assert(rest =~= Seq::<HitV>::empty());
        }
        assert(hit_views(sorted@) =~= s0.take(i as int) + (seq![hv] + rest));
        assert(s0.take(i as int) + (seq![hv] + rest) =~= s0.take(i as int) + insert_by_score(rest, hv));
    }
}

/// The candidates that pass the plan, by descending score with ties in order (see
/// `passing_hits` and `by_score`).
pub fn rank_search_hits(plan: &SearchPlan, hits: Vec<SearchHit>) -> (r: Vec<SearchHit>)
    ensures
        hit_views(r@) == by_score(passing_hits(*plan, hit_views(hits@))),
{
    let ghost all = hit_views(hits@);
    let mut rest = crate::json::reversed(hits);
    let mut sorted: Vec<SearchHit> = Vec::new();
    let mut i: usize = 0;
    let n = rest.len();
    assert(hit_views(sorted@) =~= by_score(passing_hits(*plan, all.take(0))));
    while rest.len() > 0
        invariant
            n == all.len(),
            i + rest.len() == n,
            hit_views(rest@) == all.skip(i as int).reverse(),
            hit_views(sorted@) == by_score(passing_hits(*plan, all.take(i as int))),
        decreases rest.len(),
    {
        let ghost before_pop = rest@;
        let h = rest.pop().unwrap();
        proof {
            assert(rest@ =~= before_pop.drop_last());
            assert(hit_views(rest@) =~= hit_views(before_pop).drop_last());
            assert(all.skip(i as int).reverse().last() == all[i as int]);
            assert(hit_view(h) == hit_views(before_pop).last());
            assert(all.skip(i as int).reverse().drop_last() =~= all.skip(i + 1).reverse());
            assert(hit_views(rest@) =~= all.skip(i + 1).reverse());
            assert(all.take(i + 1).drop_last() =~= all.take(i as int));
            assert(all.take(i + 1).last() == all[i as int]);
        }
        if search_payload_matches_filters(plan, &h) {
            let ghost before = passing_hits(*plan, all.take(i as int));
            insert_hit(&mut sorted, h);
            assert(passing_hits(*plan, all.take(i + 1)) == before.push(all[i as int]));
            assert(before.push(all[i as int]).drop_last() =~= before);
        }
        i = i + 1;
    }
    assert(all.take(n as int) =~= all);
    sorted
}


/// The unit whose point matched, as a search result reports it.
#[derive(Debug)]
pub struct MatchedUnitEvidence {
    pub unit_id: String,
    pub unit_type: String,
    pub vector_space_id: String,
    pub rank: usize,
    pub raw_score_bits: u32,
}

/// One result of a search page.
#[derive(Debug)]
pub struct SearchResultItem {
    pub library_id: String,
    pub asset_id: String,
    pub asset_type: String,
    pub source_id: String,
    pub preview: PreviewReference,
    pub source_uri: String,
    pub source_type: String,
    pub locator: Json,
    pub matched_units: Vec<MatchedUnitEvidence>,
    pub cursor: String,
    pub score_bits: Option<u32>,
}

/// What a search's debug output reports: the backend and vector type, the raw scores of the
/// debugged content types, the vector spaces and their prefilters, and the counts.
#[derive(Debug)]
pub struct SearchDebugData {
    pub backend: String,
    pub vector_type: String,
    pub content_types: Vec<ContentTypeDebug>,
    pub vector_spaces: Vec<VectorSpaceDebug>,
    pub prefilter: Vec<PrefilterDebug>,
    pub query_vector_count: usize,
    pub retrieved_points: usize,
    pub filtered_results: usize,
    pub returned_results: usize,
    pub top_score_bits: Option<u32>,
}

/// A page of search results.
#[derive(Debug)]
pub struct SearchResponseData {
    pub results: Vec<SearchResultItem>,
    pub next_cursor: Option<String>,
    pub unsupported_content_types: Vec<UnsupportedContentTypeSnapshot>,
    pub debug: Option<SearchDebugData>,
}

/// The number of points that the groups returned.
pub open spec fn total_points(groups: Seq<ExecutedSearchGroup>) -> nat
    decreases groups.len(),
{
    if groups.len() == 0 {
        0
    } else {
        total_points(groups.drop_last()) + (groups.last().candidates.len() as nat)
    }
}

/// The number of query vectors of the groups.
pub open spec fn total_query_vectors(groups: Seq<ExecutedSearchGroup>) -> nat
    decreases groups.len(),
{
    if groups.len() == 0 {
        0
    } else {
        total_query_vectors(groups.drop_last()) + (groups.last().query_vector_count as nat)
    }
}

/// The larger of two optional scores by `total_cmp` (the later one on a tie).
pub open spec fn max_score(a: Option<u32>, b: u32) -> Option<u32> {
    match a {
        Some(x) => if total_order_key(b) >= total_order_key(x) { Some(b) } else { Some(x) },
        None => Some(b),
    }
}

/// The top score among points.
pub open spec fn top_of_points(acc: Option<u32>, points: Seq<ScoredPoint>) -> Option<u32>
    decreases points.len(),
{
    if points.len() == 0 {
        acc
    } else {
        max_score(top_of_points(acc, points.drop_last()), points.last().score_bits)
    }
}

/// The top score among all the groups' points.
pub open spec fn top_score(groups: Seq<ExecutedSearchGroup>) -> Option<u32>
    decreases groups.len(),
{
    if groups.len() == 0 {
        None
    } else {
        top_of_points(top_score(groups.drop_last()), groups.last().candidates@)
    }
}

/// `item` is the result for a ranked candidate at `position` of the filtered ranking, with
/// the asset's location; its preview is the asset's preview endpoint under the service's
/// base URL, opened at the asset's page or time span (see `unit_preview_url`).
pub open spec fn result_item_is(
    app_base_url: Seq<char>,
    item: SearchResultItem,
    h: HitV,
    loc: SearchPlanAssetLocation,
    position: nat,
) -> bool {
    &&& item.preview.url@ == unit_preview_url(app_base_url, h.library_id, h.asset_id, h.asset_type, json_model(loc.locator))
    &&& opt_view(item.preview.handle) == Some("preview:"@ + h.asset_id)
    &&& item.library_id@ == h.library_id
    &&& item.asset_id@ == h.asset_id
    &&& item.asset_type@ == h.asset_type
    &&& item.source_id@ == loc.source_id@
    &&& item.source_uri@ == loc.source_uri@
    &&& item.source_type@ == loc.source_type@
    &&& json_model(item.locator) == json_model(loc.locator)
    &&& item.matched_units@.len() == 1
    &&& item.matched_units@[0].unit_id@ == h.unit_id
    &&& item.matched_units@[0].unit_type@ == h.unit_type
    &&& item.matched_units@[0].vector_space_id@ == h.vector_space_id
    &&& item.matched_units@[0].rank == h.rank
    &&& item.matched_units@[0].raw_score_bits == h.score_bits
    &&& item.cursor@ == search_cursor(position + 1)
    &&& item.score_bits == Some(h.score_bits)
}

/// `r` is the page of results that the plan asks of the groups: the candidates that pass
/// the plan, by descending score, from the cursor offset (or the end) and at most `top_k`
/// of them; a cursor for the rest when results remain; and the counts when the plan asks
/// for debug output. The plan's unsupported content types are passed on as they are.
pub open spec fn search_response_is(
    app_base_url: Seq<char>,
    plan: SearchPlan,
    groups: Seq<ExecutedSearchGroup>,
    r: SearchResponseData,
) -> bool {
    let ranked = by_score(passing_hits(plan, all_hits(groups)));
    let n = ranked.len();
    let start: nat = if plan.cursor_offset < n { plan.cursor_offset as nat } else { n };
    let count: nat = if start + plan.top_k <= n { plan.top_k as nat } else { (n - start) as nat };
    &&& r.results@.len() == count
    &&& unsupported_views(r.unsupported_content_types@) == unsupported_views(plan.unsupported_content_types@)
    &&& forall|k: int| 0 <= k < count ==> {
        let h = #[trigger] ranked[start + k];
        result_item_is(
            app_base_url,
            r.results@[k],
            h,
            lookup(plan.asset_locations@, scoped_asset_ref(h.library_id, h.asset_id)).unwrap(),
            (start + k) as nat,
        )
    }
    &&& match r.next_cursor {
        Some(c) => start + count < n && c@ == search_cursor(start + count),
        None => start + count >= n,
    }
    &&& match r.debug {
        Some(d) => plan.debug && d.backend@ == "qdrant"@ && d.vector_type@ == "multi_vector_late_interaction"@
            && content_types_debug_is(plan.debug_content_types@, groups, d.content_types@)
            && vector_spaces_debug_is(plan.execution_groups@, d.vector_spaces@) && d.prefilter@.len()
            == plan.execution_groups@.len() && (forall|i: int|
            0 <= i < d.prefilter@.len() ==> #[trigger] prefilter_is(plan.execution_groups@[i], d.prefilter@[i]))
            && d.query_vector_count == total_query_vectors(groups) && d.retrieved_points
            == total_points(groups) && d.filtered_results == n && d.returned_results == count && d.top_score_bits
            == top_score(groups),
        None => !plan.debug,
    }
}

proof fn lemma_passing_subset(plan: SearchPlan, hs: Seq<HitV>)
    ensures
        forall|i: int| 0 <= i < passing_hits(plan, hs).len() ==> hit_passes(plan, #[trigger] passing_hits(plan, hs)[i]),
        passing_hits(plan, hs).len() <= hs.len(),
    decreases hs.len(),
{
    if hs.len() > 0 {
        lemma_passing_subset(plan, hs.drop_last());
    }
}

proof fn lemma_insert_members(sorted: Seq<HitV>, h: HitV, p: spec_fn(HitV) -> bool)
    requires
        forall|i: int| 0 <= i < sorted.len() ==> p(#[trigger] sorted[i]),
        p(h),
    ensures
        forall|i: int| 0 <= i < insert_by_score(sorted, h).len() ==> p(#[trigger] insert_by_score(sorted, h)[i]),
        insert_by_score(sorted, h).len() == sorted.len() + 1,
    decreases sorted.len(),
{
    if sorted.len() > 0 && !(total_order_key(sorted[0].score_bits) < total_order_key(h.score_bits)) {
        let t = sorted.drop_first();
        lemma_insert_members(t, h, p);
        let r = insert_by_score(sorted, h);
        assert forall|i: int| 0 <= i < r.len() implies p(#[trigger] r[i]) by {
            if i > 0 {
                assert(r[i] == insert_by_score(t, h)[i - 1]);
            } else {
                assert(r[0] == sorted[0]);
            }
        }
    } else if sorted.len() > 0 {
        let r = insert_by_score(sorted, h);
        assert forall|i: int| 0 <= i < r.len() implies p(#[trigger] r[i]) by {
            if i > 0 {
                assert(r[i] == sorted[i - 1]);
            }
        }
    }
}

proof fn lemma_by_score_members(hs: Seq<HitV>, p: spec_fn(HitV) -> bool)
    requires
        forall|i: int| 0 <= i < hs.len() ==> p(#[trigger] hs[i]),
    ensures
        forall|i: int| 0 <= i < by_score(hs).len() ==> p(#[trigger] by_score(hs)[i]),
        by_score(hs).len() == hs.len(),
    decreases hs.len(),
{
    if hs.len() > 0 {
        lemma_by_score_members(hs.drop_last(), p);
        lemma_insert_members(by_score(hs.drop_last()), hs.last(), p);
    }
}


fn debug_data(plan: &SearchPlan, groups: &Vec<ExecutedSearchGroup>, filtered: usize, returned: usize) -> (r: SearchDebugData)
    requires
        total_points(groups@) <= usize::MAX,
        total_query_vectors(groups@) <= usize::MAX,
    ensures
        r.backend@ == "qdrant"@,
        r.vector_type@ == "multi_vector_late_interaction"@,
        content_types_debug_is(plan.debug_content_types@, groups@, r.content_types@),
        vector_spaces_debug_is(plan.execution_groups@, r.vector_spaces@),
        r.prefilter@.len() == plan.execution_groups@.len(),
        forall|i: int| 0 <= i < r.prefilter@.len() ==> #[trigger] prefilter_is(plan.execution_groups@[i], r.prefilter@[i]),
        r.query_vector_count == total_query_vectors(groups@),
        r.retrieved_points == total_points(groups@),
        r.filtered_results == filtered,
        r.returned_results == returned,
        r.top_score_bits == top_score(groups@),
{
    let mut vectors: usize = 0;
    let mut points: usize = 0;
    let mut top: Option<u32> = None;
    let mut g: usize = 0;
    while g < groups.len()
        invariant
            g <= groups.len(),
            total_points(groups@) <= usize::MAX,
            total_query_vectors(groups@) <= usize::MAX,
            vectors == total_query_vectors(groups@.take(g as int)),
            points == total_points(groups@.take(g as int)),
            top == top_score(groups@.take(g as int)),
        decreases groups.len() - g,
    {
        proof {
            assert(groups@.take(g + 1).drop_last() =~= groups@.take(g as int));
            assert(groups@.take(g + 1).last() == groups@[g as int]);
            lemma_totals_monotone(groups@, g + 1);
        }
        let group = &groups[g];
        vectors = vectors + group.query_vector_count;
        points = points + group.candidates.len();
        let ghost acc0 = top;
        let mut i: usize = 0;
        assert(group.candidates@.take(0) =~= Seq::<ScoredPoint>::empty());
        while i < group.candidates.len()
            invariant
                i <= group.candidates.len(),
                top == top_of_points(acc0, group.candidates@.take(i as int)),
            decreases group.candidates.len() - i,
        {
            assert(group.candidates@.take(i + 1).drop_last() =~= group.candidates@.take(i as int));
            let b = group.candidates[i].score_bits;
            top = match top {
                Some(x) => if score_key(b) >= score_key(x) { Some(b) } else { Some(x) },
                None => Some(b),
            };
            i = i + 1;
        }
        assert(group.candidates@.take(group.candidates.len() as int) =~= group.candidates@);
        g = g + 1;
    }
    assert(groups@.take(groups.len() as int) =~= groups@);
    SearchDebugData {
        backend: "qdrant".to_owned(),
        vector_type: "multi_vector_late_interaction".to_owned(),
        content_types: content_types_debug(&plan.debug_content_types, groups),
        vector_spaces: vector_spaces_debug(&plan.execution_groups),
        prefilter: prefilter_debug(&plan.execution_groups),
        query_vector_count: vectors,
        retrieved_points: points,
        filtered_results: filtered,
        returned_results: returned,
        top_score_bits: top,
    }
}

/// Candidates whose scores never increase along the sequence.
pub open spec fn scores_descending(s: Seq<HitV>) -> bool {
    forall|i: int, j: int| 0 <= i < j < s.len() ==> total_order_key(#[trigger] s[j].score_bits) <= total_order_key(
        #[trigger] s[i].score_bits,
    )
}

proof fn lemma_insert_keeps_descending(sorted: Seq<HitV>, h: HitV)
    requires
        scores_descending(sorted),
    ensures
        scores_descending(insert_by_score(sorted, h)),
    decreases sorted.len(),
{
    let r = insert_by_score(sorted, h);
    if sorted.len() == 0 {
        assert(r =~= seq![h]);
    } else if total_order_key(sorted[0].score_bits) < total_order_key(h.score_bits) {
        assert(r =~= seq![h] + sorted);
        assert forall|i: int, j: int| 0 <= i < j < r.len() implies total_order_key(#[trigger] r[j].score_bits)
            <= total_order_key(#[trigger] r[i].score_bits) by {
            if i == 0 {
                assert(r[j] == sorted[j - 1]);
                if j - 1 > 0 {
                    assert(total_order_key(sorted[j - 1].score_bits) <= total_order_key(sorted[0].score_bits));
                }
            } else {
                assert(r[i] == sorted[i - 1] && r[j] == sorted[j - 1]);
            }
        }
    } else {
        let t = sorted.drop_first();
        assert forall|i: int, j: int| 0 <= i < j < t.len() implies total_order_key(#[trigger] t[j].score_bits)
            <= total_order_key(#[trigger] t[i].score_bits) by {
            assert(t[i] == sorted[i + 1] && t[j] == sorted[j + 1]);
        }
        lemma_insert_keeps_descending(t, h);
        let top = total_order_key(sorted[0].score_bits);
        let p = |x: HitV| total_order_key(x.score_bits) <= top;
        assert forall|i: int| 0 <= i < t.len() implies p(#[trigger] t[i]) by {
            assert(t[i] == sorted[i + 1]);
        }
        lemma_insert_members(t, h, p);
        let rest = insert_by_score(t, h);
        assert(r =~= seq![sorted[0]] + rest);
        assert forall|i: int, j: int| 0 <= i < j < r.len() implies total_order_key(#[trigger] r[j].score_bits)
            <= total_order_key(#[trigger] r[i].score_bits) by {
            assert(r[j] == rest[j - 1]);
            assert(p(rest[j - 1]));
            if i > 0 {
                assert(r[i] == rest[i - 1]);
            }
        }
    }
}

/// Ranked candidates come best first: no candidate scores higher than one before it.
pub proof fn lemma_by_score_descending(hs: Seq<HitV>)
    ensures
        scores_descending(by_score(hs)),
    decreases hs.len(),
{
    if hs.len() > 0 {
        lemma_by_score_descending(hs.drop_last());
        lemma_insert_keeps_descending(by_score(hs.drop_last()), hs.last());
    }
}

proof fn lemma_totals_monotone(groups: Seq<ExecutedSearchGroup>, j: int)
    requires
        0 <= j <= groups.len(),
    ensures
        total_points(groups.take(j)) <= total_points(groups),
        total_query_vectors(groups.take(j)) <= total_query_vectors(groups),
    decreases groups.len() - j,
{
    if j < groups.len() {
        lemma_totals_monotone(groups, j + 1);
        assert(groups.take(j + 1).drop_last() =~= groups.take(j));
    } else {
        assert(groups.take(j) =~= groups);
    }
}

/// A page of search results (see `search_response_is`), with previews under the service's
/// base URL `app_base_url`. Every ranked candidate has an active location, so the page is
/// always built.
pub fn build_search_response(plan: &SearchPlan, groups: &Vec<ExecutedSearchGroup>, app_base_url: &str) -> (r: Result<
    SearchResponseData,
    ApiError,
>)
    requires
        total_points(groups@) <= usize::MAX,
        total_query_vectors(groups@) <= usize::MAX,
    ensures
        r matches Ok(data) && search_response_is(app_base_url@, *plan, groups@, data),
{
    let hits = collect_hits(groups);
    let ranked = rank_search_hits(plan, hits);
    let ghost rv = hit_views(ranked@);
    proof {
        let p = |h: HitV| hit_passes(*plan, h);
        lemma_passing_subset(*plan, all_hits(groups@));
        assert forall|i: int| 0 <= i < passing_hits(*plan, all_hits(groups@)).len() implies p(
            #[trigger] passing_hits(*plan, all_hits(groups@))[i],
        ) by {}
        lemma_by_score_members(passing_hits(*plan, all_hits(groups@)), p);
        assert forall|i: int| 0 <= i < rv.len() implies hit_passes(*plan, #[trigger] rv[i]) by {
            assert(p(rv[i]));
        }
    }
    let n = ranked.len();
    let start = if plan.cursor_offset < n { plan.cursor_offset } else { n };
    let count = if plan.top_k <= n - start { plan.top_k } else { n - start };
    let mut results: Vec<SearchResultItem> = Vec::new();
    let mut k: usize = 0;
    while k < count
        invariant
            k <= count,
            start + count <= n,
            n == ranked.len(),
            rv == hit_views(ranked@),
            forall|i: int| 0 <= i < rv.len() ==> hit_passes(*plan, #[trigger] rv[i]),
            results@.len() == k,
            forall|j: int| 0 <= j < k ==> {
                let h = #[trigger] rv[start + j];
                result_item_is(
                    app_base_url@,
                    results@[j],
                    h,
                    lookup(plan.asset_locations@, scoped_asset_ref(h.library_id, h.asset_id)).unwrap(),
                    (start + j) as nat,
                )
            },
        decreases count - k,
    {
        let h = &ranked[start + k];
        assert(rv[start + k] == hit_view(*h));
        assert(hit_passes(*plan, rv[start + k]));
        let scoped = scoped_ref_of(&h.library_id, &h.asset_id);
        let loc = match find_entry(&plan.asset_locations, &scoped) {
            Some(i) => &plan.asset_locations[i].1,
            None => {
                let mut d = empty_members();
                put_member(&mut d, "library_id", Json::Str(h.library_id.clone()));
                put_member(&mut d, "asset_id", Json::Str(h.asset_id.clone()));
                return Err(ApiError::not_ready(
                    "Search result references an asset without an active source location.",
                    Some(Json::Object(d)),
                ));
            },
        };
        let mut matched: Vec<MatchedUnitEvidence> = Vec::new();
        matched.push(
            MatchedUnitEvidence {
                unit_id: h.unit_id.clone(),
                unit_type: h.unit_type.clone(),
                vector_space_id: h.vector_space_id.clone(),
                rank: h.rank,
                raw_score_bits: h.score_bits,
            },
        );
        let preview = visual_unit_preview_reference(app_base_url, &h.library_id, &h.asset_id, &h.asset_type, &loc.locator);
        let item = SearchResultItem {
            library_id: h.library_id.clone(),
            asset_id: h.asset_id.clone(),
            asset_type: h.asset_type.clone(),
            source_id: loc.source_id.clone(),
            preview,
            source_uri: loc.source_uri.clone(),
            source_type: loc.source_type.clone(),
            locator: clone_json(&loc.locator),
            matched_units: matched,
            cursor: encode_search_cursor(start + k + 1),
            score_bits: Some(h.score_bits),
        };
        results.push(item);
        k = k + 1;
    }
    let next_offset = start + count;
    let next_cursor = if next_offset < n { Some(encode_search_cursor(next_offset)) } else { None };
    let debug = if plan.debug { Some(debug_data(plan, groups, n, count)) } else { None };
    let unsupported_content_types = copy_unsupported(&plan.unsupported_content_types);
    Ok(SearchResponseData { results, next_cursor, unsupported_content_types, debug })
}


/// The default number of items per embedding batch.
pub const DEFAULT_INDEX_EMBED_BATCH_ITEMS: usize = 8;

/// The number of items per embedding batch: `INDEX_EMBED_BATCH_ITEMS` when it parses, else
/// 8; at least 1.
pub fn index_embed_batch_items(setting: Option<&str>) -> (r: usize)
    ensures
        r == if crate::qdrant::usize_setting(crate::config::opt_str_view(setting), DEFAULT_INDEX_EMBED_BATCH_ITEMS) >= 1 {
            crate::qdrant::usize_setting(crate::config::opt_str_view(setting), DEFAULT_INDEX_EMBED_BATCH_ITEMS)
        } else {
            1
        },
{
    let n = crate::qdrant::read_optional_usize(setting, DEFAULT_INDEX_EMBED_BATCH_ITEMS);
    if n >= 1 { n } else { 1 }
}

/// The number of batches of `batch_items` that hold `total_items` items.
pub fn batch_count(total_items: usize, batch_items: usize) -> (r: usize)
    requires
        batch_items > 0,
    ensures
        total_items == 0 ==> r == 0,
        total_items > 0 ==> r == (total_items - 1) / (batch_items as int) + 1,
        (r - 1) * batch_items < total_items <= r * batch_items || (r == 0 && total_items == 0),
{
    if total_items == 0 {
        0
    } else {
        let r = ((total_items - 1) / batch_items) + 1;
        assert((r - 1) * batch_items < total_items <= r * batch_items) by (nonlinear_arith)
            requires
                r == ((total_items - 1) as int / batch_items as int) + 1,
                batch_items > 0,
                total_items > 0,
        ;
        r
    }
}

/// Whether the instant `t` lies in the span `[lo, hi]`.
pub open spec fn within(t: int, lo: int, hi: int) -> bool {
    lo <= t <= hi
}

/// The time filter admits a located span exactly when it overlaps the window: a span
/// `[s, e]` passes a window `[start, end]` when `s <= end` and `e >= start`, whether or not it
/// lies inside the window (a segment `[0, 10000]` passes a window `[5000, 15000]`); for
/// well-formed spans and windows, that is when the two share an instant.
pub proof fn lemma_time_filter_admits_overlap(locator: JsonV, filter: SearchTimeRangeFilter, s: u64, e: u64)
    requires
        u64_member(locator, "start_ms"@) == Some(s),
        u64_member(locator, "end_ms"@) == Some(e),
    ensures
        overlaps_time_range(locator, filter) <==> (s <= filter.end_ms && e >= filter.start_ms),
        s <= e && filter.start_ms <= filter.end_ms ==> (overlaps_time_range(locator, filter) <==> exists|t: int|
            #[trigger] within(t, s as int, e as int) && within(t, filter.start_ms as int, filter.end_ms as int)),
{
    if s <= e && filter.start_ms <= filter.end_ms && s <= filter.end_ms && e >= filter.start_ms {
        let t: int = if s >= filter.start_ms { s as int } else { filter.start_ms as int };
        assert(within(t, s as int, e as int) && within(t, filter.start_ms as int, filter.end_ms as int));
    }
}

} // verus!
