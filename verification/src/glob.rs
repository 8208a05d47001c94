use vstd::prelude::*;
use crate::text::chars_of;

verus! {

/// Whether the first `i` characters of the wildcard pattern `p` match the first `j`
/// characters of `v`. `*` matches any run of characters (possibly empty), `?` matches
/// exactly one character, every other character matches itself.
pub open spec fn wild_prefix_match(p: Seq<char>, v: Seq<char>, i: nat, j: nat) -> bool
    decreases i + j,
{
    if i == 0 {
        j == 0
    } else if p[i - 1] == '*' {
        wild_prefix_match(p, v, (i - 1) as nat, j) || (j > 0 && wild_prefix_match(p, v, i, (j - 1) as nat))
    } else if p[i - 1] == '?' {
        j > 0 && wild_prefix_match(p, v, (i - 1) as nat, (j - 1) as nat)
    } else {
        j > 0 && v[j - 1] == p[i - 1] && wild_prefix_match(p, v, (i - 1) as nat, (j - 1) as nat)
    }
}

/// Whether the whole wildcard pattern `p` matches the whole value `v`.
pub open spec fn wildcard_matches(p: Seq<char>, v: Seq<char>) -> bool {
    wild_prefix_match(p, v, p.len(), v.len())
}

/// Whether a list of pattern segments matches a list of path segments: `**` matches any
/// number of whole segments (possibly none), any other pattern segment matches exactly one
/// path segment as a wildcard pattern.
pub open spec fn segments_match(ps: Seq<Seq<char>>, vs: Seq<Seq<char>>) -> bool
    decreases ps.len() + vs.len(),
{
    if ps.len() == 0 {
        vs.len() == 0
    } else if ps[0] == seq!['*', '*'] {
        segments_match(ps.drop_first(), vs) || (vs.len() > 0 && segments_match(ps, vs.drop_first()))
    } else {
        vs.len() > 0 && wildcard_matches(ps[0], vs[0]) && segments_match(ps.drop_first(), vs.drop_first())
    }
}

/// State of splitting `s` at `/`: the finished non-empty pieces and the piece in progress.
pub open spec fn split_state(s: Seq<char>) -> (Seq<Seq<char>>, Seq<char>)
    decreases s.len(),
{
    if s.len() == 0 {
        (seq![], seq![])
    } else {
        let (done, cur) = split_state(s.drop_last());
        if s.last() == '/' {
            (if cur.len() > 0 { done.push(cur) } else { done }, seq![])
        } else {
            (done, cur.push(s.last()))
        }
    }
}

/// The non-empty pieces of `s` between `/` separators, in order.
pub open spec fn path_segments(s: Seq<char>) -> Seq<Seq<char>> {
    let (done, cur) = split_state(s);
    if cur.len() > 0 { done.push(cur) } else { done }
}

/// Whether a glob pattern matches a relative path, both taken as `/`-separated segments.
pub open spec fn glob_matches(pattern: Seq<char>, path: Seq<char>) -> bool {
    segments_match(path_segments(pattern), path_segments(path))
}

/// `*` matches any segment value.
pub proof fn lemma_star_matches_any(v: Seq<char>)
    ensures
        wildcard_matches(seq!['*'], v),
{
    lemma_star_prefix(v, v.len());
}

proof fn lemma_star_prefix(v: Seq<char>, j: nat)
    requires
        j <= v.len(),
    ensures
        wild_prefix_match(seq!['*'], v, 1, j),
    decreases j,
{
    let p = seq!['*'];
    assert(p[0] == '*');
    if j > 0 {
        lemma_star_prefix(v, (j - 1) as nat);
        assert(wild_prefix_match(p, v, 1, (j - 1) as nat));
    } else {
        assert(wild_prefix_match(p, v, 0, 0));
    }
    reveal_with_fuel(wild_prefix_match, 2);
}

/// Every wildcard pattern matches its own text.
pub proof fn lemma_pattern_matches_itself(p: Seq<char>)
    ensures
        wildcard_matches(p, p),
{
    lemma_self_prefix(p, p.len());
}

proof fn lemma_self_prefix(p: Seq<char>, i: nat)
    requires
        i <= p.len(),
    ensures
        wild_prefix_match(p, p, i, i),
    decreases i,
{
    if i > 0 {
        lemma_self_prefix(p, (i - 1) as nat);
        if p[i - 1] == '*' {
            assert(wild_prefix_match(p, p, (i - 1) as nat, (i - 1) as nat));
            assert(wild_prefix_match(p, p, i, (i - 1) as nat));
        }
    }
}

/// A `**` segment alone matches every list of segments, the empty one included.
pub proof fn lemma_double_star_matches_all(vs: Seq<Seq<char>>)
    ensures
        segments_match(seq![seq!['*', '*']], vs),
    decreases vs.len(),
{
    let ps = seq![seq!['*', '*']];
    assert(ps[0] == seq!['*', '*']);
    assert(ps.drop_first() =~= Seq::<Seq<char>>::empty());
    if vs.len() > 0 {
        lemma_double_star_matches_all(vs.drop_first());
        assert(segments_match(ps, vs.drop_first()));
    } else {
        assert(segments_match(ps.drop_first(), vs));
    }
    reveal_with_fuel(segments_match, 2);
}

/// The glob `**` matches every relative path.
pub proof fn lemma_double_star_glob_matches_all(path: Seq<char>)
    ensures
        glob_matches(seq!['*', '*'], path),
{
    let p = seq!['*', '*'];
    assert(p.drop_last() =~= seq!['*']);
    assert(seq!['*'].drop_last() =~= Seq::<char>::empty());
    assert(seq!['*'].last() == '*');
    assert(p.last() == '*');
    assert(Seq::<char>::empty().push('*') =~= seq!['*']);
    assert(split_state(Seq::<char>::empty()) == (Seq::<Seq<char>>::empty(), Seq::<char>::empty()));
    assert(split_state(seq!['*']) == (Seq::<Seq<char>>::empty(), seq!['*']));
    assert(seq!['*'].push('*') =~= p);
    assert(split_state(p) == (Seq::<Seq<char>>::empty(), p));
    assert(path_segments(p) =~= seq![p]);
    lemma_double_star_matches_all(path_segments(path));
}

/// Wildcard matching of one segment by dynamic programming over prefixes.
pub fn wildcard_chars_match(p: &Vec<char>, v: &Vec<char>) -> (r: bool)
    requires
        v.len() < usize::MAX,
    ensures
        r == wildcard_matches(p@, v@),
{
    let n = v.len();
    // prev[j] == wild_prefix_match(p, v, i, j)
    let mut prev: Vec<bool> = Vec::new();
    prev.push(true);
    let mut j: usize = 0;
    while j < n
        invariant
            j <= n,
            n == v.len(),
            prev.len() == j + 1,
            forall|k: int| 0 <= k <= j ==> prev@[k] == wild_prefix_match(p@, v@, 0, k as nat),
        decreases n - j,
    {
        prev.push(false);
        j = j + 1;
    }
    let mut i: usize = 0;
    while i < p.len()
        invariant
            i <= p.len(),
            n == v.len(),
            n < usize::MAX,
            prev.len() == n + 1,
            forall|k: int| 0 <= k <= n ==> prev@[k] == wild_prefix_match(p@, v@, i as nat, k as nat),
        decreases p.len() - i,
    {
        let pc = p[i];
        let mut cur: Vec<bool> = Vec::new();
        let mut k: usize = 0;
        while k <= n
            invariant
                k <= n + 1,
                n == v.len(),
                n < usize::MAX,
                i < p.len(),
                pc == p@[i as int],
                prev.len() == n + 1,
                cur.len() == k,
                forall|m: int| 0 <= m <= n ==> prev@[m] == wild_prefix_match(p@, v@, i as nat, m as nat),
                forall|m: int| 0 <= m < k ==> cur@[m] == wild_prefix_match(p@, v@, (i + 1) as nat, m as nat),
            decreases n + 1 - k,
        {
            let b: bool = if pc == '*' {
                prev[k] || (k > 0 && cur[k - 1])
            } else if pc == '?' {
                k > 0 && prev[k - 1]
            } else {
                k > 0 && v[k - 1] == pc && prev[k - 1]
            };
            assert(b == wild_prefix_match(p@, v@, (i + 1) as nat, k as nat));
            cur.push(b);
            k = k + 1;
        }
        prev = cur;
        i = i + 1;
    }
    prev[n]
}

/// Whether the wildcard pattern matches the whole value.
pub fn wildcard_segment_matches(pattern: &str, value: &str) -> (r: bool)
    requires
        value@.len() < usize::MAX,
    ensures
        r == wildcard_matches(pattern@, value@),
{
    let p = chars_of(pattern);
    let v = chars_of(value);
    wildcard_chars_match(&p, &v)
}


/// The character views of a list of character vectors.
pub open spec fn char_views(v: Seq<Vec<char>>) -> Seq<Seq<char>> {
    v.map_values(|x: Vec<char>| x@)
}

/// Splits `s` at `/` and keeps the non-empty pieces.
pub fn split_path_segments(s: &Vec<char>) -> (r: Vec<Vec<char>>)
    ensures
        char_views(r@) == path_segments(s@),
        forall|k: int| 0 <= k < r.len() ==> r@[k].len() <= s.len(),
{
    let mut done: Vec<Vec<char>> = Vec::new();
    let mut cur: Vec<char> = Vec::new();
    let mut i: usize = 0;
    while i < s.len()
        invariant
            i <= s.len(),
            (char_views(done@), cur@) == split_state(s@.take(i as int)),
            cur.len() <= i,
            forall|k: int| 0 <= k < done.len() ==> done@[k].len() <= i,
        decreases s.len() - i,
    {
        let c = s[i];
        assert(s@.take(i + 1).drop_last() =~= s@.take(i as int));
        assert(s@.take(i + 1).last() == c);
        if c == '/' {
            if cur.len() > 0 {
                let piece = cur;
                done.push(piece);
                assert(char_views(done@) =~= split_state(s@.take(i as int)).0.push(piece@));
            }
            cur = Vec::new();
        } else {
            cur.push(c);
        }
        i = i + 1;
    }
    assert(s@.take(s.len() as int) =~= s@);
    if cur.len() > 0 {
        let piece = cur;
        done.push(piece);
        assert(char_views(done@) =~= split_state(s@).0.push(piece@));
    }
    done
}

/// Whether a single segment is the `**` marker.
fn is_double_star(seg: &Vec<char>) -> (r: bool)
    ensures
        r == (seg@ == seq!['*', '*']),
{
    let r = seg.len() == 2 && seg[0] == '*' && seg[1] == '*';
    if r {
        assert(seg@ =~= seq!['*', '*']);
    }
    r
}

fn segments_match_from(ps: &Vec<Vec<char>>, pi: usize, vs: &Vec<Vec<char>>, vi: usize) -> (r: bool)
    requires
        pi <= ps.len(),
        vi <= vs.len(),
        forall|k: int| 0 <= k < vs.len() ==> vs@[k].len() < usize::MAX,
    ensures
        r == segments_match(char_views(ps@).skip(pi as int), char_views(vs@).skip(vi as int)),
    decreases (ps.len() - pi) + (vs.len() - vi),
{
    let ghost pv = char_views(ps@).skip(pi as int);
    let ghost vv = char_views(vs@).skip(vi as int);
    if pi == ps.len() {
        return vi == vs.len();
    }
    assert(pv[0] == ps@[pi as int]@);
    assert(pv.drop_first() =~= char_views(ps@).skip(pi + 1));
    if vi < vs.len() {
        assert(vv[0] == vs@[vi as int]@);
        assert(vv.drop_first() =~= char_views(vs@).skip(vi + 1));
    }
    if is_double_star(&ps[pi]) {
        segments_match_from(ps, pi + 1, vs, vi) || (vi < vs.len() && segments_match_from(ps, pi, vs, vi + 1))
    } else {
        vi < vs.len() && wildcard_chars_match(&ps[pi], &vs[vi]) && segments_match_from(ps, pi + 1, vs, vi + 1)
    }
}

/// Whether pattern segments match path segments (see `segments_match`).
pub fn glob_segments_match(pattern_segments: &Vec<Vec<char>>, path_segments: &Vec<Vec<char>>) -> (r: bool)
    requires
        forall|k: int| 0 <= k < path_segments.len() ==> path_segments@[k].len() < usize::MAX,
    ensures
        r == segments_match(char_views(pattern_segments@), char_views(path_segments@)),
{
    assert(char_views(pattern_segments@).skip(0) =~= char_views(pattern_segments@));
    assert(char_views(path_segments@).skip(0) =~= char_views(path_segments@));
    segments_match_from(pattern_segments, 0, path_segments, 0)
}

/// Whether the glob `pattern` matches `relative_path`: both are split at `/` with empty
/// pieces dropped, `**` stands for any number of whole segments, and inside a segment
/// `*` and `?` are wildcards.
pub fn glob_pattern_matches(pattern: &str, relative_path: &str) -> (r: bool)
    requires
        relative_path@.len() < usize::MAX,
    ensures
        r == glob_matches(pattern@, relative_path@),
{
    let p = chars_of(pattern);
    let v = chars_of(relative_path);
    let ps = split_path_segments(&p);
    let vs = split_path_segments(&v);
    glob_segments_match(&ps, &vs)
}

} // verus!
