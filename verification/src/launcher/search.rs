//! Fuzzy search over the discovered applications.
//!
//! The query returns up to `limit` applications whose name matches, best
//! score first (ties keep the alphabetical order of the list); an empty query
//! returns the first `limit` applications.

use vstd::prelude::*;
use fuzzy_matcher::FuzzyMatcher;
use crate::launcher::apps::{AppEntry, AppView};
use crate::order::{first_after, insert_stable, stable_sort, lemma_first_after_bounds, law_stable_sort_ordered, law_stable_sort_permutes, strict_order};

verus! {

/// Score of `pattern` against `choice` by the skim matcher (version 2,
/// smart case), or `None` when it does not match.
pub uninterp spec fn skim_score(choice: Seq<char>, pattern: Seq<char>) -> Option<i64>;

/// `SkimMatcherV2::default().smart_case().fuzzy_match(choice, pattern)`.
/// The result is named by [`skim_score`]; an empty pattern matches with
/// score 0.
#[verifier::external_body]
fn fuzzy_score(choice: &str, pattern: &str) -> (r: Option<i64>)
    ensures
        r == skim_score(choice@, pattern@),
        pattern@.len() == 0 ==> r == Some(0i64),
{
    fuzzy_matcher::skim::SkimMatcherV2::default().smart_case().fuzzy_match(choice, pattern)
}

/// Indices of the applications among the first `n` whose name matches
/// `pattern`, ascending.
pub open spec fn matching(apps: Seq<AppView>, pattern: Seq<char>, n: int) -> Seq<int>
    decreases n,
{
    if n <= 0 {
        Seq::empty()
    } else if skim_score(apps[n - 1].name, pattern) is Some {
        matching(apps, pattern, n - 1).push(n - 1)
    } else {
        matching(apps, pattern, n - 1)
    }
}

/// Score of application `i`.
pub open spec fn score_of(apps: Seq<AppView>, pattern: Seq<char>, i: int) -> int {
    match skim_score(apps[i].name, pattern) {
        Some(s) => s as int,
        None => 0,
    }
}

/// Application `y` is ranked after application `x` when it scores less.
pub open spec fn ranked_after(apps: Seq<AppView>, pattern: Seq<char>) -> spec_fn(int, int) -> bool {
    |x: int, y: int| score_of(apps, pattern, y) < score_of(apps, pattern, x)
}

/// Indices of the matching applications, best score first, stable.
pub open spec fn ranking(apps: Seq<AppView>, pattern: Seq<char>) -> Seq<int> {
    stable_sort(matching(apps, pattern, apps.len() as int), ranked_after(apps, pattern))
}

/// Indices of the applications a query returns.
pub open spec fn query_indices(apps: Seq<AppView>, pattern: Seq<char>, limit: nat) -> Seq<int> {
    if pattern.len() == 0 {
        Seq::new(if apps.len() < limit { apps.len() } else { limit }, |i: int| i)
    } else {
        let r = ranking(apps, pattern);
        if r.len() <= limit { r } else { r.take(limit as int) }
    }
}

pub struct Searcher {
    apps: Vec<AppEntry>,
}

proof fn lemma_first_after_skip(order: Seq<int>, after: spec_fn(int, int) -> bool, x: int, j: int)
    requires
        0 <= j <= order.len(),
        forall|k: int| 0 <= k < j ==> !after(x, #[trigger] order[k]),
    ensures
        first_after(order, after, x, 0) == first_after(order, after, x, j),
    decreases j,
{
    if j > 0 {
        lemma_first_after_skip(order, after, x, j - 1);
        assert(!after(x, order[j - 1]));
    }
}

proof fn lemma_matching_prefix(apps: Seq<AppView>, pattern: Seq<char>, n: int)
    requires
        0 <= n,
    ensures
        forall|k: int| 0 <= k < matching(apps, pattern, n).len() ==> 0 <= #[trigger] matching(apps, pattern, n)[k] < n,
    decreases n,
{
    if n > 0 {
        lemma_matching_prefix(apps, pattern, n - 1);
        let prev = matching(apps, pattern, n - 1);
        let m = matching(apps, pattern, n);
        assert forall|k: int| 0 <= k < m.len() implies 0 <= #[trigger] m[k] < n by {
            if k < prev.len() {
                assert(m[k] == prev[k]);
            }
        }
    }
}

impl Searcher {
    pub closed spec fn apps(&self) -> Seq<AppView> {
        self.apps@.map_values(|a: AppEntry| a@)
    }

    pub fn new(apps: Vec<AppEntry>) -> (r: Self)
        ensures
            r.apps() == apps@.map_values(|a: AppEntry| a@),
    {
        Searcher { apps }
    }

    pub fn count(&self) -> (r: usize)
        ensures
            r == self.apps().len(),
    {
        self.apps.len()
    }

    /// Indices of the matching applications, best score first; ties keep
    /// list order.
    fn rank(&self, query: &str) -> (r: Vec<usize>)
        ensures
            r@.map_values(|u: usize| u as int) == ranking(self.apps(), query@),
            forall|k: int| 0 <= k < r@.len() ==> r@[k] < self.apps@.len(),
    {
        let ghost apps = self.apps();
        let ghost after = ranked_after(apps, query@);
        let n = self.apps.len();
        let mut scores: Vec<i64> = Vec::new();
        let mut order: Vec<usize> = Vec::new();
        let mut i: usize = 0;
        while i < n
            invariant
                n == self.apps@.len(),
                apps == self.apps(),
                apps.len() == n,
                after == ranked_after(apps, query@),
                i <= n,
                scores@.len() == i,
                forall|k: int| 0 <= k < i ==> #[trigger] scores@[k] == score_of(apps, query@, k),
                order@.map_values(|u: usize| u as int) == stable_sort(matching(apps, query@, i as int), after),
                forall|k: int| 0 <= k < order@.len() ==> order@[k] < i,
            decreases n - i,
        {
            let s = fuzzy_score(self.apps[i].name.as_str(), query);
            proof {
                assert(self.apps@[i as int]@.name == apps[i as int].name);
            }
            let sv: i64 = match s {
                Some(v) => v,
                None => 0,
            };
            scores.push(sv);
            match s {
                Some(v) => {
                    let ghost o = order@.map_values(|u: usize| u as int);
                    let mut j: usize = 0;
                    while j < order.len() && !(scores[order[j]] < v)
                        invariant
                            j <= order@.len(),
                            scores@.len() == i + 1,
                            forall|k: int| 0 <= k <= i ==> #[trigger] scores@[k] == score_of(apps, query@, k),
                            forall|k: int| 0 <= k < order@.len() ==> order@[k] < i,
                            o == order@.map_values(|u: usize| u as int),
                            v == score_of(apps, query@, i as int),
                            after == ranked_after(apps, query@),
                            forall|k: int| 0 <= k < j ==> !after(i as int, #[trigger] o[k]),
                        decreases order@.len() - j,
                    {
                        proof {
                            assert(o[j as int] == order@[j as int] as int);
                        }
                        j = j + 1;
                    }
                    proof {
                        lemma_first_after_skip(o, after, i as int, j as int);
                        lemma_first_after_bounds(o, after, i as int, j as int);
                        if j < order@.len() {
                            assert(o[j as int] == order@[j as int] as int);
                            assert(after(i as int, o[j as int]));
                            assert(first_after(o, after, i as int, j as int) == j);
                        } else {
                            assert(first_after(o, after, i as int, j as int) == j);
                        }
                    }
                    order.insert(j, i);
                    proof {
                        assert(matching(apps, query@, i + 1) == matching(apps, query@, i as int).push(i as int));
                        let m = matching(apps, query@, i + 1);
                        assert(m.drop_last() =~= matching(apps, query@, i as int));
                        assert(order@.map_values(|u: usize| u as int) =~= insert_stable(o, after, i as int));
                    }
                },
                None => {
                    proof {
                        assert(matching(apps, query@, i + 1) == matching(apps, query@, i as int));
                    }
                },
            }
            i = i + 1;
        }
        order
    }

    /// Up to `limit` applications matching `query`, best score first; an
    /// empty query returns the first `limit` applications.
    pub fn query(&self, query: &str, limit: usize) -> (r: Vec<&AppEntry>)
        ensures
            r@.len() == query_indices(self.apps(), query@, limit as nat).len(),
            forall|k: int| 0 <= k < r@.len() ==> (*r@[k])@ == self.apps()[query_indices(self.apps(), query@, limit as nat)[k]],
    {
        let ghost apps = self.apps();
        let mut out: Vec<&AppEntry> = Vec::new();
        if query.is_empty() {
            proof { assert(query@.len() == 0); }
            let n = self.apps.len();
            let mut i: usize = 0;
            while i < n && i < limit
                invariant
                    n == self.apps@.len(),
                    apps == self.apps(),
                    i <= n,
                    i <= limit,
                    out@.len() == i,
                    forall|k: int| 0 <= k < i ==> (*out@[k])@ == apps[k],
                decreases n - i,
            {
                out.push(&self.apps[i]);
                i = i + 1;
            }
            return out;
        }
        proof { assert(query@.len() != 0); }
        let order = self.rank(query);
        let ghost rk = ranking(apps, query@);
        proof {
            assert(order@.len() == rk.len());
        }
        let mut i: usize = 0;
        while i < order.len() && i < limit
            invariant
                apps == self.apps(),
                order@.map_values(|u: usize| u as int) == rk,
                forall|k: int| 0 <= k < order@.len() ==> order@[k] < self.apps@.len(),
                i <= order@.len(),
                i <= limit,
                out@.len() == i,
                forall|k: int| 0 <= k < i ==> (*out@[k])@ == apps[rk[k]],
            decreases order@.len() - i,
        {
            let idx = order[i];
            proof {
                assert(rk[i as int] == idx as int);
            }
            out.push(&self.apps[idx]);
            i = i + 1;
        }
        out
    }
}

// ---------------------------------------------------------------------------
// Laws of the query.

proof fn lemma_matching_members(apps: Seq<AppView>, pattern: Seq<char>, n: int)
    requires
        0 <= n <= apps.len(),
    ensures
        forall|k: int| 0 <= k < matching(apps, pattern, n).len() ==> {
            let i = #[trigger] matching(apps, pattern, n)[k];
            0 <= i < n && skim_score(apps[i].name, pattern) is Some
        },
    decreases n,
{
    if n > 0 {
        lemma_matching_members(apps, pattern, n - 1);
    }
}

/// A non-empty query returns at most `limit` applications, each of whose
/// names matches, ordered by descending score.
pub proof fn law_query_best_first(apps: Seq<AppView>, pattern: Seq<char>, limit: nat)
    requires
        pattern.len() > 0,
    ensures
        ({
            let q = query_indices(apps, pattern, limit);
            &&& q.len() <= limit
            &&& forall|k: int| 0 <= k < q.len() ==> 0 <= #[trigger] q[k] < apps.len() && skim_score(apps[q[k]].name, pattern) is Some
            &&& forall|a: int, b: int| 0 <= a < b < q.len() ==> score_of(apps, pattern, #[trigger] q[a]) >= score_of(apps, pattern, #[trigger] q[b])
        }),
{
    let after = ranked_after(apps, pattern);
    assert(strict_order(after));
    let m = matching(apps, pattern, apps.len() as int);
    let r = ranking(apps, pattern);
    law_stable_sort_ordered(m, after);
    law_stable_sort_permutes(m, after);
    lemma_matching_members(apps, pattern, apps.len() as int);
    assert forall|k: int| 0 <= k < r.len() implies 0 <= #[trigger] r[k] < apps.len() && skim_score(apps[r[k]].name, pattern) is Some by {
        broadcast use vstd::seq_lib::group_to_multiset_ensures;
        assert(r.contains(r[k]));
        assert(r.to_multiset().count(r[k]) > 0);
        assert(m.to_multiset().count(r[k]) > 0);
        assert(m.contains(r[k]));
        let j = choose|j: int| 0 <= j < m.len() && m[j] == r[k];
        assert(m[j] == r[k]);
    }
    let q = query_indices(apps, pattern, limit);
    assert forall|k: int| 0 <= k < q.len() implies q[k] == r[k] by {}
    assert forall|a: int, b: int| 0 <= a < b < q.len() implies score_of(apps, pattern, #[trigger] q[a]) >= score_of(apps, pattern, #[trigger] q[b]) by {
        assert(q[a] == r[a] && q[b] == r[b]);
        assert(!after(r[b], r[a]));
    }
}

proof fn lemma_matching_complete(apps: Seq<AppView>, pattern: Seq<char>, n: int, i: int)
    requires
        0 <= i < n <= apps.len(),
        skim_score(apps[i].name, pattern) is Some,
    ensures
        matching(apps, pattern, n).contains(i),
    decreases n,
{
    if i < n - 1 {
        lemma_matching_complete(apps, pattern, n - 1, i);
        let prev = matching(apps, pattern, n - 1);
        let k = choose|k: int| 0 <= k < prev.len() && prev[k] == i;
        assert(matching(apps, pattern, n)[k] == i);
    } else {
        let prev = matching(apps, pattern, n - 1);
        assert(matching(apps, pattern, n)[prev.len() as int] == i);
    }
}

/// No matching application is left out: every application whose name
/// matches a non-empty query is among the results, unless the results
/// already fill `limit`.
pub proof fn law_query_complete(apps: Seq<AppView>, pattern: Seq<char>, limit: nat, i: int)
    requires
        pattern.len() > 0,
        0 <= i < apps.len(),
        skim_score(apps[i].name, pattern) is Some,
    ensures
        query_indices(apps, pattern, limit).contains(i) || query_indices(apps, pattern, limit).len() == limit,
{
    let after = ranked_after(apps, pattern);
    let m = matching(apps, pattern, apps.len() as int);
    let r = ranking(apps, pattern);
    lemma_matching_complete(apps, pattern, apps.len() as int, i);
    law_stable_sort_permutes(m, after);
    broadcast use vstd::seq_lib::group_to_multiset_ensures;
    assert(m.to_multiset().count(i) > 0);
    assert(r.to_multiset().count(i) > 0);
    assert(r.contains(i));
}

} // verus!
