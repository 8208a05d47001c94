use vstd::prelude::*;
use crate::json::{clone_json, json_model, string_views, Json, JsonV};
use crate::provider::ResolvedExecutionModelSelection;
use crate::ranking::{content_type_covers, content_type_matches_asset, ExecutedSearchGroup, ScoredPoint};
use crate::sorted::{insert_sorted, is_sorted_set, set_of, strictly_sorted};

verus! {

/// A content type whose scores a debug search reports, in a library, with the model it
/// resolved to (as the service reports it).
#[derive(Debug)]
pub struct SearchContentTypeDebugEntry {
    pub library_id: String,
    pub content_type: String,
    pub resolved_model: Json,
}

/// The search of one vector space in a library: the points it may return (ascending, each
/// once), the content types it serves and the model that embeds them.
#[derive(Debug)]
pub struct VectorSpaceExecutionGroup {
    pub library_id: String,
    pub vector_space_id: String,
    pub active_unit_count: usize,
    pub eligible_point_ids: Vec<u64>,
    pub content_types: Vec<String>,
    pub resolved_model: ResolvedExecutionModelSelection,
}

/// One raw score of a point of a debugged content type.
#[derive(Debug)]
pub struct RawScoreDebug {
    pub library_id: String,
    pub asset_id: String,
    pub unit_id: String,
    pub vector_space_id: String,
    pub score_bits: u32,
}

/// The raw scores of a debugged content type.
#[derive(Debug)]
pub struct ContentTypeDebug {
    pub library_id: String,
    pub content_type: String,
    pub resolved_model: Json,
    pub raw_scores: Vec<RawScoreDebug>,
}

/// The model behind one vector space that a debug search used.
#[derive(Debug)]
pub struct VectorSpaceDebug {
    pub library_id: String,
    pub vector_space_id: String,
    pub provider_id: String,
    pub provider_kind: String,
    pub model_id: String,
    pub model_version: String,
    pub model_revision: Option<String>,
    pub vector_type: String,
    pub execution_input_types: Vec<String>,
    pub status: String,
    pub content_types: Vec<String>,
}

/// How one vector space's search was narrowed before scoring.
#[derive(Debug)]
pub struct PrefilterDebug {
    pub library_id: String,
    pub vector_space_id: String,
    pub enabled: bool,
    pub mode: String,
    pub candidate_point_count: usize,
    pub pushed_fields: Vec<String>,
}

/// A raw score, as modelled: library, asset, unit, vector space and score bits.
pub type RawScoreV = (Seq<char>, Seq<char>, Seq<char>, Seq<char>, u32);

/// The view of a raw score.
pub open spec fn raw_view(r: RawScoreDebug) -> RawScoreV {
    (r.library_id@, r.asset_id@, r.unit_id@, r.vector_space_id@, r.score_bits)
}

/// The views of raw scores.
pub open spec fn raw_views(v: Seq<RawScoreDebug>) -> Seq<RawScoreV> {
    v.map_values(|r: RawScoreDebug| raw_view(r))
}

/// The scores of the points with a payload of the content type, in order, for `library`.
pub open spec fn point_scores(points: Seq<ScoredPoint>, library: Seq<char>, content_type: Seq<char>, vs: Seq<char>) -> Seq<
    RawScoreV,
>
    decreases points.len(),
{
    if points.len() == 0 {
        seq![]
    } else {
        let rest = point_scores(points.drop_last(), library, content_type, vs);
        match points.last().payload {
            Some(p) => if content_type_covers(content_type, p.asset_type@) {
                rest.push((library, p.asset_id@, p.unit_id@, vs, points.last().score_bits))
            } else {
                rest
            },
            None => rest,
        }
    }
}

/// The raw scores of a content type in a library: the groups of that library in order, and
/// in each its points with a payload of that content type, in order.
pub open spec fn raw_scores(groups: Seq<ExecutedSearchGroup>, library: Seq<char>, content_type: Seq<char>) -> Seq<RawScoreV>
    decreases groups.len(),
{
    if groups.len() == 0 {
        seq![]
    } else {
        let rest = raw_scores(groups.drop_last(), library, content_type);
        let g = groups.last();
        if g.library_id@ == library {
            rest + point_scores(g.candidates@, library, content_type, g.vector_space_id@)
        } else {
            rest
        }
    }
}

/// `d` reports the entry's content type with its raw scores.
pub open spec fn content_type_debug_is(e: SearchContentTypeDebugEntry, groups: Seq<ExecutedSearchGroup>, d: ContentTypeDebug) -> bool {
    &&& d.library_id@ == e.library_id@
    &&& d.content_type@ == e.content_type@
    &&& json_model(d.resolved_model) == json_model(e.resolved_model)
    &&& raw_views(d.raw_scores@) == raw_scores(groups, e.library_id@, e.content_type@)
}

fn point_scores_of(points: &Vec<ScoredPoint>, library: &String, content_type: &String, vs: &String, out: &mut Vec<RawScoreDebug>)
    ensures
        raw_views(final(out)@) == raw_views(old(out)@) + point_scores(points@, library@, content_type@, vs@),
{
    let ghost start = raw_views(out@);
    let mut i: usize = 0;
    while i < points.len()
        invariant
            i <= points.len(),
            raw_views(out@) == start + point_scores(points@.take(i as int), library@, content_type@, vs@),
        decreases points.len() - i,
    {
        assert(points@.take(i + 1).drop_last() =~= points@.take(i as int));
        assert(points@.take(i + 1).last() == points@[i as int]);
        match &points[i].payload {
            Some(p) => {
                if content_type_matches_asset(content_type.as_str(), p.asset_type.as_str()) {
                    let ghost before = raw_views(out@);
                    let r = RawScoreDebug {
                        library_id: library.clone(),
                        asset_id: p.asset_id.clone(),
                        unit_id: p.unit_id.clone(),
                        vector_space_id: vs.clone(),
                        score_bits: points[i].score_bits,
                    };
                    out.push(r);
                    assert(raw_views(out@) =~= before.push(raw_view(r)));
                }
            },
            None => {},
        }
        i += 1;
    }
    assert(points@.take(points.len() as int) =~= points@);
}

/// The debug report of one content type (see `content_type_debug_is`).
pub fn content_type_debug(e: &SearchContentTypeDebugEntry, groups: &Vec<ExecutedSearchGroup>) -> (r: ContentTypeDebug)
    ensures
        content_type_debug_is(*e, groups@, r),
{
    let mut out: Vec<RawScoreDebug> = Vec::new();
    let mut g: usize = 0;
    assert(raw_views(out@) =~= raw_scores(groups@.take(0), e.library_id@, e.content_type@));
    while g < groups.len()
        invariant
            g <= groups.len(),
            raw_views(out@) == raw_scores(groups@.take(g as int), e.library_id@, e.content_type@),
        decreases groups.len() - g,
    {
        assert(groups@.take(g + 1).drop_last() =~= groups@.take(g as int));
        assert(groups@.take(g + 1).last() == groups@[g as int]);
        if groups[g].library_id == e.library_id {
            point_scores_of(&groups[g].candidates, &e.library_id, &e.content_type, &groups[g].vector_space_id, &mut out);
        }
        g += 1;
    }
    assert(groups@.take(groups.len() as int) =~= groups@);
    ContentTypeDebug {
        library_id: e.library_id.clone(),
        content_type: e.content_type.clone(),
        resolved_model: clone_json(&e.resolved_model),
        raw_scores: out,
    }
}

/// `d` reports each debugged content type in order (see `content_type_debug_is`).
pub open spec fn content_types_debug_is(
    entries: Seq<SearchContentTypeDebugEntry>,
    groups: Seq<ExecutedSearchGroup>,
    d: Seq<ContentTypeDebug>,
) -> bool {
    &&& d.len() == entries.len()
    &&& forall|i: int| 0 <= i < d.len() ==> #[trigger] content_type_debug_is(entries[i], groups, d[i])
}

/// The debug reports of the content types (see `content_types_debug_is`).
pub fn content_types_debug(entries: &Vec<SearchContentTypeDebugEntry>, groups: &Vec<ExecutedSearchGroup>) -> (r: Vec<ContentTypeDebug>)
    ensures
        content_types_debug_is(entries@, groups@, r@),
{
    let mut r: Vec<ContentTypeDebug> = Vec::new();
    let mut i: usize = 0;
    while i < entries.len()
        invariant
            i <= entries.len(),
            r@.len() == i,
            forall|k: int| 0 <= k < i ==> #[trigger] content_type_debug_is(entries@[k], groups@, r@[k]),
        decreases entries.len() - i,
    {
        r.push(content_type_debug(&entries[i], groups));
        i += 1;
    }
    r
}

/// `p` is the prefilter report of group `g`: an allow-list of its eligible points, pushed
/// down as the `point_id` field.
pub open spec fn prefilter_is(g: VectorSpaceExecutionGroup, p: PrefilterDebug) -> bool {
    &&& p.library_id@ == g.library_id@
    &&& p.vector_space_id@ == g.vector_space_id@
    &&& p.enabled
    &&& p.mode@ == "point_allow_list"@
    &&& p.candidate_point_count == g.eligible_point_ids@.len()
    &&& string_views(p.pushed_fields@) == seq!["point_id"@]
}

/// The prefilter report of each group, in order.
pub fn prefilter_debug(groups: &Vec<VectorSpaceExecutionGroup>) -> (r: Vec<PrefilterDebug>)
    ensures
        r@.len() == groups@.len(),
        forall|i: int| 0 <= i < r@.len() ==> #[trigger] prefilter_is(groups@[i], r@[i]),
{
    let mut r: Vec<PrefilterDebug> = Vec::new();
    let mut i: usize = 0;
    while i < groups.len()
        invariant
            i <= groups.len(),
            r@.len() == i,
            forall|k: int| 0 <= k < i ==> #[trigger] prefilter_is(groups@[k], r@[k]),
        decreases groups.len() - i,
    {
        let fields = vec!["point_id".to_owned()];
        assert(string_views(fields@) =~= seq!["point_id"@]);
        r.push(PrefilterDebug {
            library_id: groups[i].library_id.clone(),
            vector_space_id: groups[i].vector_space_id.clone(),
            enabled: true,
            mode: "point_allow_list".to_owned(),
            candidate_point_count: groups[i].eligible_point_ids.len(),
            pushed_fields: fields,
        });
        i += 1;
    }
    r
}

/// `d` describes the vector space of group `g`: the group's library and content types and
/// its model.
pub open spec fn vector_space_debug_is(g: VectorSpaceExecutionGroup, d: VectorSpaceDebug) -> bool {
    let s = g.resolved_model.summary;
    &&& d.library_id@ == g.library_id@
    &&& d.vector_space_id@ == g.vector_space_id@
    &&& d.provider_id@ == s.provider_id@
    &&& d.provider_kind@ == s.provider_kind@
    &&& d.model_id@ == s.model_id@
    &&& d.model_version@ == s.model_version@
    &&& crate::config::opt_view(d.model_revision) == crate::config::opt_view(s.model_revision)
    &&& d.vector_type@ == g.resolved_model.vector_type@
    &&& string_views(d.execution_input_types@) == string_views(g.resolved_model.execution_input_types@)
    &&& d.status@ == s.status@
    &&& string_views(d.content_types@) == string_views(g.content_types@)
}

/// The index of the first group of the vector space `id`.
pub open spec fn first_group(groups: Seq<VectorSpaceExecutionGroup>, id: Seq<char>, i: int) -> bool {
    &&& 0 <= i < groups.len()
    &&& groups[i].vector_space_id@ == id
    &&& forall|j: int| 0 <= j < i ==> #[trigger] groups[j].vector_space_id@ != id
}

/// The vector spaces of the groups, as modelled.
pub open spec fn group_spaces(groups: Seq<VectorSpaceExecutionGroup>) -> Set<Seq<char>> {
    groups.map_values(|g: VectorSpaceExecutionGroup| g.vector_space_id@).to_set()
}

/// `d` describes the vector space of the first group of its id.
pub open spec fn described(groups: Seq<VectorSpaceExecutionGroup>, d: VectorSpaceDebug) -> bool {
    exists|i: int| first_group(groups, d.vector_space_id@, i) && #[trigger] vector_space_debug_is(groups[i], d)
}

/// `d` describes each vector space of the groups once, in increasing id order, each from the
/// first group of that vector space.
pub open spec fn vector_spaces_debug_is(groups: Seq<VectorSpaceExecutionGroup>, d: Seq<VectorSpaceDebug>) -> bool {
    let ids = d.map_values(|x: VectorSpaceDebug| x.vector_space_id@);
    &&& strictly_sorted(ids)
    &&& ids.to_set() == group_spaces(groups)
    &&& forall|k: int| 0 <= k < d.len() ==> #[trigger] described(groups, d[k])
}

fn copy_strings(v: &Vec<String>) -> (r: Vec<String>)
    ensures
        string_views(r@) == string_views(v@),
{
    let mut r: Vec<String> = Vec::new();
    let mut i: usize = 0;
    while i < v.len()
        invariant
            i <= v.len(),
            string_views(r@) == string_views(v@.take(i as int)),
        decreases v.len() - i,
    {
        let ghost before = string_views(r@);
        let s = v[i].clone();
        r.push(s);
        assert(string_views(r@) =~= before.push(s@));
        assert(string_views(v@.take(i + 1)) =~= string_views(v@.take(i as int)).push(v@[i as int]@));
        i += 1;
    }
    assert(v@.take(v.len() as int) =~= v@);
    r
}

fn space_debug(g: &VectorSpaceExecutionGroup) -> (r: VectorSpaceDebug)
    ensures
        vector_space_debug_is(*g, r),
{
    let s = &g.resolved_model.summary;
    VectorSpaceDebug {
        library_id: g.library_id.clone(),
        vector_space_id: g.vector_space_id.clone(),
        provider_id: s.provider_id.clone(),
        provider_kind: s.provider_kind.clone(),
        model_id: s.model_id.clone(),
        model_version: s.model_version.clone(),
        model_revision: match &s.model_revision {
            Some(x) => Some(x.clone()),
            None => None,
        },
        vector_type: g.resolved_model.vector_type.clone(),
        execution_input_types: copy_strings(&g.resolved_model.execution_input_types),
        status: s.status.clone(),
        content_types: copy_strings(&g.content_types),
    }
}

/// The vector spaces of the groups (see `vector_spaces_debug_is`).
pub fn vector_spaces_debug(groups: &Vec<VectorSpaceExecutionGroup>) -> (r: Vec<VectorSpaceDebug>)
    ensures
        vector_spaces_debug_is(groups@, r@),
{
    let mut ids: Vec<String> = Vec::new();
    let mut i: usize = 0;
    proof {
        assert(string_views(ids@).to_set() =~= Set::<Seq<char>>::empty());
        assert(groups@.take(0).map_values(|g: VectorSpaceExecutionGroup| g.vector_space_id@).to_set() =~= Set::<Seq<char>>::empty());
    }
    while i < groups.len()
        invariant
            i <= groups.len(),
            is_sorted_set(ids@),
            set_of(ids@) == group_spaces(groups@.take(i as int)),
        decreases groups.len() - i,
    {
        insert_sorted(&mut ids, groups[i].vector_space_id.clone());
        proof {
            let s = groups@.take(i as int).map_values(|g: VectorSpaceExecutionGroup| g.vector_space_id@);
            assert(groups@.take(i + 1).map_values(|g: VectorSpaceExecutionGroup| g.vector_space_id@) =~= s.push(
                groups@[i as int].vector_space_id@,
            ));
            s.lemma_push_to_set_commute(groups@[i as int].vector_space_id@);
        }
        i += 1;
    }
    assert(groups@.take(groups.len() as int) =~= groups@);
    let mut r: Vec<VectorSpaceDebug> = Vec::new();
    let mut k: usize = 0;
    while k < ids.len()
        invariant
            k <= ids.len(),
            is_sorted_set(ids@),
            set_of(ids@) == group_spaces(groups@),
            r@.len() == k,
            forall|t: int| 0 <= t < k ==> #[trigger] r@[t].vector_space_id@ == ids@[t]@,
            forall|t: int| 0 <= t < k ==> #[trigger] described(groups@, r@[t]),
        decreases ids.len() - k,
    {
        proof {
            assert(string_views(ids@)[k as int] == ids@[k as int]@);
            assert(string_views(ids@).to_set().contains(ids@[k as int]@));
            let s = groups@.map_values(|g: VectorSpaceExecutionGroup| g.vector_space_id@);
            let w = choose|w: int| 0 <= w < s.len() && s[w] == ids@[k as int]@;
            assert(groups@[w].vector_space_id@ == ids@[k as int]@);
        }
        let mut j: usize = 0;
        while j < groups.len() && groups[j].vector_space_id != ids[k]
            invariant
                j <= groups.len(),
                k < ids.len(),
                forall|t: int| 0 <= t < j ==> #[trigger] groups@[t].vector_space_id@ != ids@[k as int]@,
            decreases groups.len() - j,
        {
            j += 1;
        }
        if j == groups.len() {
            proof {
                let s = groups@.map_values(|g: VectorSpaceExecutionGroup| g.vector_space_id@);
                let w = choose|w: int| 0 <= w < s.len() && s[w] == ids@[k as int]@;
                assert(groups@[w].vector_space_id@ != ids@[k as int]@);
            }
            return r;
        }
        let d = space_debug(&groups[j]);
        assert(first_group(groups@, d.vector_space_id@, j as int));
        let ghost before = r@;
        r.push(d);
        proof {
            assert(r@[k as int] == d);
            assert(vector_space_debug_is(groups@[j as int], r@[k as int]));
            assert(described(groups@, r@[k as int]));
            assert forall|t: int| 0 <= t < k + 1 implies #[trigger] described(groups@, r@[t]) by {
                if t < k {
                    assert(r@[t] == before[t]);
                }
            }
        }
        k += 1;
    }
    proof {
        let dv = r@.map_values(|x: VectorSpaceDebug| x.vector_space_id@);
        assert(dv =~= string_views(ids@));
    }
    r
}

} // verus!
