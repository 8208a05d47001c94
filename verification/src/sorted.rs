use vstd::prelude::*;
use crate::json::{key_lt, lex_lt, string_views};

verus! {

/// `lex_lt` never holds between a key and itself.
pub proof fn lemma_lex_lt_irreflexive(a: Seq<char>)
    ensures
        !lex_lt(a, a),
    decreases a.len(),
{
    if a.len() > 0 {
        lemma_lex_lt_irreflexive(a.drop_first());
    }
}

/// `lex_lt` is transitive.
pub proof fn lemma_lex_lt_transitive(a: Seq<char>, b: Seq<char>, c: Seq<char>)
    requires
        lex_lt(a, b),
        lex_lt(b, c),
    ensures
        lex_lt(a, c),
    decreases a.len(),
{
    if a.len() > 0 && b.len() > 0 && c.len() > 0 {
        if (a[0] as u32) == (b[0] as u32) && (b[0] as u32) == (c[0] as u32) {
            lemma_lex_lt_transitive(a.drop_first(), b.drop_first(), c.drop_first());
        }
    }
}

/// Of two different keys, one is below the other.
pub proof fn lemma_lex_lt_total(a: Seq<char>, b: Seq<char>)
    requires
        a != b,
    ensures
        lex_lt(a, b) || lex_lt(b, a),
    decreases a.len(),
{
    if a.len() > 0 && b.len() > 0 && (a[0] as u32) == (b[0] as u32) {
        vstd::utf8::char_u32_cast(a[0], a[0] as u32);
        vstd::utf8::char_u32_cast(b[0], b[0] as u32);
        assert(a[0] == b[0]);
        if a.drop_first() == b.drop_first() {
            assert(a =~= seq![a[0]] + a.drop_first());
            assert(b =~= seq![b[0]] + b.drop_first());
        }
        lemma_lex_lt_total(a.drop_first(), b.drop_first());
    } else if a.len() == 0 && b.len() == 0 {
        assert(a =~= b);
    }
}

/// `lex_lt` is asymmetric.
pub proof fn lemma_lex_lt_asymmetric(a: Seq<char>, b: Seq<char>)
    requires
        lex_lt(a, b),
    ensures
        !lex_lt(b, a),
{
    if lex_lt(b, a) {
        lemma_lex_lt_transitive(a, b, a);
        lemma_lex_lt_irreflexive(a);
    }
}

/// Keys in strictly increasing order, hence each once: the order of a `BTreeSet` of strings.
pub open spec fn strictly_sorted(s: Seq<Seq<char>>) -> bool {
    forall|i: int, j: int| 0 <= i < j < s.len() ==> lex_lt(#[trigger] s[i], #[trigger] s[j])
}

/// The strings of a sorted set, as a mathematical set.
pub open spec fn set_of(v: Seq<String>) -> Set<Seq<char>> {
    string_views(v).to_set()
}

/// A vector of strings that is a sorted set.
pub open spec fn is_sorted_set(v: Seq<String>) -> bool {
    strictly_sorted(string_views(v))
}

/// A sorted set is determined by its elements.
pub proof fn lemma_sorted_unique(a: Seq<Seq<char>>, b: Seq<Seq<char>>)
    requires
        strictly_sorted(a),
        strictly_sorted(b),
        a.to_set() == b.to_set(),
    ensures
        a == b,
    decreases a.len() + b.len(),
{
    if a.len() == 0 {
        if b.len() > 0 {
            assert(b.to_set().contains(b[0]));
        }
        assert(b =~= a);
    } else if b.len() == 0 {
        assert(a.to_set().contains(a[0]));
    } else {
        // the least elements agree
        assert(a.to_set().contains(a[0]));
        assert(b.to_set().contains(b[0]));
        let ia = choose|i: int| 0 <= i < a.len() && a[i] == b[0];
        let ib = choose|i: int| 0 <= i < b.len() && b[i] == a[0];
        if a[0] != b[0] {
            if ia > 0 {
                assert(lex_lt(a[0], a[ia]));
            }
            if ib > 0 {
                assert(lex_lt(b[0], b[ib]));
            }
            lemma_lex_lt_asymmetric(a[0], b[0]);
        }
        let ta = a.drop_first();
        let tb = b.drop_first();
        assert forall|x: Seq<char>| ta.to_set().contains(x) <==> tb.to_set().contains(x) by {
            if ta.to_set().contains(x) {
                let k = choose|k: int| 0 <= k < ta.len() && ta[k] == x;
                assert(a[k + 1] == x);
                assert(lex_lt(a[0], x));
                lemma_lex_lt_irreflexive(x);
                assert(b.to_set().contains(x));
                let m = choose|m: int| 0 <= m < b.len() && b[m] == x;
                assert(m != 0);
                assert(tb[m - 1] == x);
            }
            if tb.to_set().contains(x) {
                let k = choose|k: int| 0 <= k < tb.len() && tb[k] == x;
                assert(b[k + 1] == x);
                assert(lex_lt(b[0], x));
                lemma_lex_lt_irreflexive(x);
                assert(a.to_set().contains(x));
                let m = choose|m: int| 0 <= m < a.len() && a[m] == x;
                assert(m != 0);
                assert(ta[m - 1] == x);
            }
        }
        assert(ta.to_set() =~= tb.to_set());
        lemma_sorted_unique(ta, tb);
        assert(a =~= seq![a[0]] + ta);
        assert(b =~= seq![b[0]] + tb);
    }
}

/// Adds a string to a sorted set, keeping it sorted.
pub fn insert_sorted(set: &mut Vec<String>, item: String)
    requires
        is_sorted_set(old(set)@),
    ensures
        is_sorted_set(final(set)@),
        set_of(final(set)@) == set_of(old(set)@).insert(item@),
{
    let ghost s0 = string_views(set@);
    let mut i: usize = 0;
    while i < set.len()
        invariant
            i <= set.len(),
            s0 == string_views(set@),
            strictly_sorted(s0),
            forall|k: int| 0 <= k < i ==> lex_lt(#[trigger] s0[k], item@),
        ensures
            i <= set.len(),
            s0 == string_views(set@),
            forall|k: int| 0 <= k < i ==> lex_lt(#[trigger] s0[k], item@),
            i < set.len() ==> !lex_lt(s0[i as int], item@),
        decreases set.len() - i,
    {
        assert(s0[i as int] == set@[i as int]@);
        if !key_lt(&set[i], &item) {
            break;
        }
        i = i + 1;
    }
    if i < set.len() && set[i] == item {
        assert(s0[i as int] == item@);
        assert(s0.to_set().insert(item@) =~= s0.to_set());
        return;
    }
    proof {
        if i < set.len() {
            assert(s0[i as int] == set@[i as int]@);
            assert(s0[i as int] != item@);
            lemma_lex_lt_total(s0[i as int], item@);
        }
    }
    set.insert(i, item);
    proof {
        let s1 = string_views(set@);
        assert(s1 =~= s0.insert(i as int, item@));
        assert forall|a: int, b: int| 0 <= a < b < s1.len() implies lex_lt(#[trigger] s1[a], #[trigger] s1[b]) by {
            if b == i {
                assert(s1[a] == s0[a]);
            } else if a == i {
                assert(s1[b] == s0[b - 1]);
                if b - 1 > i {
                    assert(lex_lt(s0[i as int], s0[b - 1]));
                    lemma_lex_lt_transitive(item@, s0[i as int], s0[b - 1]);
                }
            } else if a < i && b > i {
                assert(s1[a] == s0[a]);
                assert(s1[b] == s0[b - 1]);
            } else if a > i {
                assert(s1[a] == s0[a - 1]);
                assert(s1[b] == s0[b - 1]);
            }
        }
        assert forall|x: Seq<char>| s1.to_set().contains(x) <==> s0.to_set().insert(item@).contains(x) by {
            if s1.to_set().contains(x) {
                let k = choose|k: int| 0 <= k < s1.len() && s1[k] == x;
                if k < i {
                    assert(s0[k] == x);
                } else if k > i {
                    assert(s0[k - 1] == x);
                }
            }
            if s0.to_set().contains(x) {
                let k = choose|k: int| 0 <= k < s0.len() && s0[k] == x;
                if k < i {
                    assert(s1[k] == x);
                } else {
                    assert(s1[k + 1] == x);
                }
            }
            if x == item@ {
                assert(s1[i as int] == x);
            }
        }
        assert(s1.to_set() =~= s0.to_set().insert(item@));
    }
}

/// Whether a sorted set holds a string.
pub fn sorted_contains(set: &Vec<String>, item: &String) -> (r: bool)
    ensures
        r == set_of(set@).contains(item@),
{
    let mut i: usize = 0;
    while i < set.len()
        invariant
            i <= set.len(),
            forall|k: int| 0 <= k < i ==> set@[k]@ != item@,
        decreases set.len() - i,
    {
        if set[i] == *item {
            assert(string_views(set@)[i as int] == item@);
            return true;
        }
        i = i + 1;
    }
    proof {
        if set_of(set@).contains(item@) {
            let k = choose|k: int| 0 <= k < string_views(set@).len() && string_views(set@)[k] == item@;
            assert(set@[k]@ == item@);
        }
    }
    false
}

} // verus!
