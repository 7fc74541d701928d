//! Ranking repositories by a fuzzy query over their canonical paths.

use vstd::prelude::*;

use crate::repository::{
    dedup, insert_unique_into, lemma_dedup_sorted, lemma_insert_unique_least, lemma_text_lt_irreflexive,
    rel_path, strictly_sorted, text_lt, views, Repository, RepositoryView,
};

verus! {

/// The texts held by a sequence of strings.
pub open spec fn texts(s: Seq<String>) -> Seq<Seq<char>> {
    s.map_values(|t: String| t@)
}

/// The candidates that the fuzzy matcher keeps for `pattern` among `items`,
/// best score first, equal scores in the order of `items`.
pub uninterp spec fn fuzzy_ranking(pattern: Seq<char>, items: Seq<Seq<char>>) -> Seq<Seq<char>>;

/// Some string of `items` holds the text `t`.
pub open spec fn holds_text(items: Seq<String>, t: Seq<char>) -> bool {
    exists|j: int| 0 <= j < items.len() && items[j]@ == t
}

/// Scores queries against candidate strings; keeps no state between calls.
pub struct FuzzyMatcher {}

impl FuzzyMatcher {
    pub fn new() -> Self {
        FuzzyMatcher {  }
    }

    /// Relies on `nucleo_matcher`'s `Pattern::new` (case-insensitive, smart
    /// normalization, fuzzy atoms) and `Pattern::match_list`: the result
    /// depends on the pattern and the items alone, holds only items, and for
    /// an empty pattern holds every item in the given order.
    #[verifier::external_body]
    pub fn match_pattern(&self, pattern: &str, items: &Vec<String>) -> (r: Vec<String>)
        ensures
            texts(r@) == fuzzy_ranking(pattern@, texts(items@)),
            pattern@.len() == 0 ==> texts(r@) == texts(items@),
            forall|i: int| 0 <= i < r@.len() ==> #[trigger] holds_text(items@, r@[i]@),
    {
        let pat = nucleo_matcher::pattern::Pattern::new(
            pattern,
            nucleo_matcher::pattern::CaseMatching::Ignore,
            nucleo_matcher::pattern::Normalization::Smart,
            nucleo_matcher::pattern::AtomKind::Fuzzy,
        );
        let mut matcher = nucleo_matcher::Matcher::new(nucleo_matcher::Config::DEFAULT);
        pat.match_list(items.iter().map(|s| s.as_str()), &mut matcher).into_iter().map(
            |(s, _)| s.to_string(),
        ).collect()
    }
}

/// The canonical paths of a sequence of repositories.
pub open spec fn paths(s: Seq<RepositoryView>) -> Seq<Seq<char>> {
    s.map_values(|x: RepositoryView| rel_path(x))
}

/// The list that queries run against: one repository per canonical path,
/// sorted by it; of several with one canonical path the last one stands.
pub open spec fn haystack(repos: Seq<RepositoryView>) -> Seq<RepositoryView> {
    dedup(repos.reverse())
}

/// `r` is the answer to `pattern` over `repos`: for each canonical path that
/// the fuzzy matcher ranks, in its order, the haystack's repository with
/// that path.
pub open spec fn is_match_result(
    pattern: Seq<char>,
    repos: Seq<RepositoryView>,
    r: Seq<RepositoryView>,
) -> bool {
    let h = haystack(repos);
    let ranked = fuzzy_ranking(pattern, paths(h));
    &&& r.len() == ranked.len()
    &&& forall|i: int|
        0 <= i < r.len() ==> rel_path(#[trigger] r[i]) == ranked[i] && exists|j: int|
            0 <= j < h.len() && r[i] == h[j]
}

/// A repository set that is already deduplicated is its own haystack.
pub proof fn lemma_haystack_of_sorted(s: Seq<RepositoryView>)
    requires
        strictly_sorted(s),
    ensures
        haystack(s) == s,
    decreases s.len(),
{
    if s.len() > 0 {
        let tail = s.drop_first();
        assert(strictly_sorted(tail)) by {
            assert forall|i: int, j: int| 0 <= i < j < tail.len() implies #[trigger] text_lt(
                rel_path(tail[i]),
                rel_path(tail[j]),
            ) by {
                assert(text_lt(rel_path(s[i + 1]), rel_path(s[j + 1])));
            }
        }
        lemma_haystack_of_sorted(tail);
        let t = s.reverse();
        assert(t.drop_last() =~= tail.reverse());
        assert(t.last() == s[0]);
        if tail.len() > 0 {
            assert(text_lt(rel_path(s[0]), rel_path(s[1])));
        }
        lemma_insert_unique_least(tail, s[0]);
        assert(seq![s[0]] + tail =~= s);
    }
}

proof fn lemma_unique_key(h: Seq<RepositoryView>, a: int, b: int)
    requires
        strictly_sorted(h),
        0 <= a < h.len(),
        0 <= b < h.len(),
        rel_path(h[a]) == rel_path(h[b]),
    ensures
        a == b,
{
    lemma_text_lt_irreflexive(rel_path(h[a]));
    if a < b {
        assert(text_lt(rel_path(h[a]), rel_path(h[b])));
    } else if b < a {
        assert(text_lt(rel_path(h[b]), rel_path(h[a])));
    }
}

/// Fuzzy matching is deterministic: two answers to one query over one
/// haystack are the same, in the same order.
pub proof fn lemma_match_deterministic(
    pattern: Seq<char>,
    repos: Seq<RepositoryView>,
    r1: Seq<RepositoryView>,
    r2: Seq<RepositoryView>,
)
    requires
        is_match_result(pattern, repos, r1),
        is_match_result(pattern, repos, r2),
    ensures
        r1 == r2,
{
    let h = haystack(repos);
    lemma_dedup_sorted(repos.reverse());
    assert forall|i: int| 0 <= i < r1.len() implies r1[i] == r2[i] by {
        assert(rel_path(r1[i]) == rel_path(r2[i]));
        let j1 = choose|j: int| 0 <= j < h.len() && r1[i] == h[j];
        let j2 = choose|j: int| 0 <= j < h.len() && r2[i] == h[j];
        if j1 < j2 {
            assert(text_lt(rel_path(h[j1]), rel_path(h[j2])));
            lemma_text_lt_irreflexive(rel_path(h[j1]));
        } else if j2 < j1 {
            assert(text_lt(rel_path(h[j2]), rel_path(h[j1])));
            lemma_text_lt_irreflexive(rel_path(h[j2]));
        }
    }
    assert(r1 =~= r2);
}

/// Ranks repositories by a fuzzy query over their canonical paths.
pub trait RepositoryMatcher {
    /// The repositories whose canonical paths match `pattern`, best first.
    /// An empty pattern gives the haystack itself, so a deduplicated set
    /// comes back in its own order.
    fn match_repositories(&self, pattern: &str, repositories: &[Repository]) -> (r: Vec<
        Repository,
    >)
        ensures
            is_match_result(pattern@, views(repositories@), views(r@)),
            pattern@.len() == 0 ==> views(r@) == haystack(views(repositories@)),
            pattern@.len() == 0 && strictly_sorted(views(repositories@)) ==> views(r@) == views(
                repositories@,
            ),
    ;
}

/// The haystack of `repositories`: built by inserting them last to first.
fn build_haystack(repositories: &[Repository]) -> (r: Vec<Repository>)
    ensures
        views(r@) == haystack(views(repositories@)),
        strictly_sorted(views(r@)),
{
    let n = repositories.len();
    let ghost all = views(repositories@);
    let mut hay: Vec<Repository> = Vec::new();
    for k in 0..n
        invariant
            n == repositories@.len(),
            all == views(repositories@),
            views(hay@) == dedup(all.reverse().subrange(0, k as int)),
            strictly_sorted(views(hay@)),
    {
        proof {
            let pre = all.reverse().subrange(0, k + 1);
            assert(pre.drop_last() =~= all.reverse().subrange(0, k as int));
            assert(pre.last() == repositories@[n - 1 - k]@);
        }
        insert_unique_into(&mut hay, repositories[n - 1 - k].duplicate());
    }
    proof {
        assert(all.reverse().subrange(0, n as int) =~= all.reverse());
    }
    hay
}

/// The canonical paths of `repos`, in order.
fn paths_of(repos: &Vec<Repository>) -> (r: Vec<String>)
    ensures
        texts(r@) == paths(views(repos@)),
{
    let mut keys: Vec<String> = Vec::new();
    for i in 0..repos.len()
        invariant
            keys@.len() == i,
            forall|m: int| 0 <= m < i ==> #[trigger] keys@[m]@ == rel_path(repos@[m]@),
    {
        keys.push(repos[i].to_rel_path());
    }
    proof {
        assert(texts(keys@) =~= paths(views(repos@)));
    }
    keys
}

/// Where `target` stands in `keys`, which holds it.
fn position_of(keys: &Vec<String>, target: &String) -> (r: usize)
    requires
        holds_text(keys@, target@),
    ensures
        r < keys@.len(),
        keys@[r as int]@ == target@,
{
    let ghost jt = choose|j: int| 0 <= j < keys@.len() && #[trigger] keys@[j]@ == target@;
    let mut j: usize = 0;
    while j < keys.len()
        invariant
            0 <= jt < keys@.len(),
            keys@[jt]@ == target@,
            j <= jt,
        ensures
            j < keys@.len(),
            keys@[j as int]@ == target@,
        decreases keys.len() - j,
    {
        if keys[j] == *target {
            break;
        }
        j = j + 1;
    }
    j
}

impl RepositoryMatcher for FuzzyMatcher {
    fn match_repositories(&self, pattern: &str, repositories: &[Repository]) -> (r: Vec<
        Repository,
    >) {
        let hay = build_haystack(repositories);
        let ghost h = views(hay@);
        let keys = paths_of(&hay);
        let ranked = self.match_pattern(pattern, &keys);
        let mut out: Vec<Repository> = Vec::new();
        let ghost mut idx: Seq<int> = Seq::empty();
        proof {
            assert(texts(keys@).len() == keys@.len());
        }
        for i in 0..ranked.len()
            invariant
                h == views(hay@),
                texts(keys@) == paths(h),
                keys@.len() == h.len(),
                forall|m: int| 0 <= m < ranked@.len() ==> #[trigger] holds_text(keys@, ranked@[m]@),
                out@.len() == i,
                idx.len() == i,
                forall|m: int|
                    0 <= m < i ==> 0 <= #[trigger] idx[m] < h.len() && views(out@)[m] == h[idx[m]]
                        && rel_path(h[idx[m]]) == ranked@[m]@,
        {
            let j = position_of(&keys, &ranked[i]);
            proof {
                assert(texts(keys@)[j as int] == keys@[j as int]@);
                assert(texts(keys@)[j as int] == rel_path(h[j as int]));
            }
            let ghost before = views(out@);
            out.push(hay[j].duplicate());
            proof {
                assert(views(out@) =~= before.push(h[j as int]));
                idx = idx.push(j as int);
            }
        }
        proof {
            let all = views(repositories@);
            lemma_dedup_sorted(all.reverse());
            assert(texts(ranked@) == fuzzy_ranking(pattern@, texts(keys@)));
            assert(texts(ranked@).len() == ranked@.len());
            assert forall|m: int| 0 <= m < out@.len() implies rel_path(#[trigger] views(out@)[m])
                == fuzzy_ranking(pattern@, paths(h))[m]
                && exists|k: int| 0 <= k < h.len() && views(out@)[m] == h[k] by {
                assert(texts(ranked@)[m] == ranked@[m]@);
                assert(views(out@)[m] == h[idx[m]]);
            }
            let rk = fuzzy_ranking(pattern@, paths(h));
            assert(h == haystack(all));
            assert(views(out@).len() == rk.len());
            assert(views(out@).len() == out@.len());
            assert(is_match_result(pattern@, all, views(out@)));
            if pattern@.len() == 0 {
                assert(texts(ranked@).len() == texts(keys@).len());
                assert forall|m: int| 0 <= m < out@.len() implies views(out@)[m] == h[m] by {
                    assert(texts(ranked@)[m] == texts(keys@)[m]);
                    assert(texts(ranked@)[m] == ranked@[m]@);
                    assert(views(out@)[m] == h[idx[m]]);
                    lemma_unique_key(h, idx[m], m);
                }
                assert(views(out@) =~= h);
                if strictly_sorted(all) {
                    lemma_haystack_of_sorted(all);
                }
            }
        }
        out
    }
}

} // verus!
