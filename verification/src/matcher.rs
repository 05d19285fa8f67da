//! Fuzzy-match filtering of candidate names. The scoring itself comes from
//! the fuzzy-matcher crate; this module pins down how the score decides
//! membership in the filtered list, and that the filter keeps the original
//! order, does not invent candidates, and is idempotent.

use vstd::prelude::*;

verus! {

/// A candidate is kept only when its score is strictly above this.
pub const MATCH_THRESHOLD: i64 = 5;

/// What SkimMatcherV2 with its default configuration returns for a candidate
/// and a term: the score and the matched character positions, or nothing
/// when the candidate does not match. The value depends on the two texts
/// alone; no short statement of it exists, so it only has a name here.
pub uninterp spec fn fuzzy_of(candidate: Seq<char>, term: Seq<char>) -> Option<(i64, Seq<usize>)>;

/// The mathematical value of an executable fuzzy-match result.
pub open spec fn fuzzy_view(r: Option<(i64, Vec<usize>)>) -> Option<(i64, Seq<usize>)> {
    match r {
        Some(p) => Some((p.0, p.1@)),
        None => None,
    }
}

/// Relies on fuzzy_matcher's `SkimMatcherV2::fuzzy_indices` under the
/// default configuration of `SkimMatcherV2::default`: the score and matched
/// positions are computed from the candidate and the pattern alone (the
/// struct's caches only reuse buffers).
#[verifier::external_body]
fn fuzzy_indices(candidate: &str, term: &Vec<char>) -> (r: Option<(i64, Vec<usize>)>)
    ensures
        fuzzy_view(r) == fuzzy_of(candidate@, term@),
{
    let pattern: String = term.iter().collect();
    let matcher = fuzzy_matcher::skim::SkimMatcherV2::default();
    fuzzy_matcher::FuzzyMatcher::fuzzy_indices(&matcher, candidate, &pattern)
}

/// Whether a candidate stays in the filtered list for a non-empty term.
pub open spec fn passes_filter(candidate: Seq<char>, term: Seq<char>) -> bool {
    match fuzzy_of(candidate, term) {
        Some(p) => p.0 > MATCH_THRESHOLD,
        None => false,
    }
}

/// The matched character positions of a candidate that passes the filter.
pub open spec fn match_positions(candidate: Seq<char>, term: Seq<char>) -> Seq<usize> {
    match fuzzy_of(candidate, term) {
        Some(p) => p.1,
        None => Seq::empty(),
    }
}

/// The texts of a list of owned candidates.
pub open spec fn candidate_views(groups: Seq<String>) -> Seq<Seq<char>> {
    groups.map_values(|g: String| g@)
}

/// The mathematical value of an executable (candidate, positions) list.
pub open spec fn pair_views(pairs: Seq<(String, Vec<usize>)>) -> Seq<(Seq<char>, Seq<usize>)> {
    pairs.map_values(|p: (String, Vec<usize>)| (p.0@, p.1@))
}

/// Every candidate, in the given order, with no positions emphasized: the
/// shape of the list when no term is active.
pub open spec fn unfiltered(candidates: Seq<Seq<char>>) -> Seq<(Seq<char>, Seq<usize>)> {
    candidates.map_values(|c: Seq<char>| (c, Seq::<usize>::empty()))
}

/// The filtered list for a non-empty term: exactly the candidates that pass
/// the filter, in their original order, each with its matched positions.
pub open spec fn filter_matches(candidates: Seq<Seq<char>>, term: Seq<char>) -> Seq<
    (Seq<char>, Seq<usize>),
>
    decreases candidates.len(),
{
    if candidates.len() == 0 {
        Seq::empty()
    } else {
        let init = filter_matches(candidates.drop_last(), term);
        if passes_filter(candidates.last(), term) {
            init.push((candidates.last(), match_positions(candidates.last(), term)))
        } else {
            init
        }
    }
}

/// Filter a candidate list by a search term. An empty term means "no
/// filtering": every candidate is returned, in the original order, with no
/// matched positions. A non-empty term keeps exactly the candidates whose
/// score is above `MATCH_THRESHOLD`, in the original order.
pub fn filter_groups(groups: &Vec<String>, term: &Vec<char>) -> (r: Vec<(String, Vec<usize>)>)
    ensures
        term@.len() == 0 ==> pair_views(r@) == unfiltered(candidate_views(groups@)),
        term@.len() > 0 ==> pair_views(r@) == filter_matches(candidate_views(groups@), term@),
{
    let mut out: Vec<(String, Vec<usize>)> = Vec::new();
    let n = groups.len();
    if term.len() == 0 {
        let mut i: usize = 0;
        while i < n
            invariant
                i <= n,
                n == groups@.len(),
                pair_views(out@) =~~= unfiltered(candidate_views(groups@.take(i as int))),
            decreases n - i,
        {
            let ghost prev = out@;
            out.push((groups[i].clone(), Vec::new()));
            proof {
                let target = unfiltered(candidate_views(groups@.take(i + 1)));
                assert(pair_views(prev).len() == prev.len());
                assert(prev.len() == i as int);
                assert(out@.len() == prev.len() + 1);
                assert(out@[i as int].0 == groups@[i as int]);
                assert(out@[i as int].1@ =~~= Seq::<usize>::empty());
                assert(pair_views(out@).len() == target.len());
                assert(pair_views(out@)[i as int] == target[i as int]);
                assert forall|k: int| 0 <= k < i implies pair_views(out@)[k] == target[k] by {
                    assert(out@[k] == prev[k]);
                    assert(pair_views(out@)[k] == pair_views(prev)[k]);
                    assert(pair_views(prev)[k] == unfiltered(
                        candidate_views(groups@.take(i as int)),
                    )[k]);
                    assert(target[k] == unfiltered(candidate_views(groups@.take(i as int)))[k]);
                }
                assert(pair_views(out@) =~~= target);
            }
            i = i + 1;
        }
        proof {
            assert(groups@.take(n as int) =~~= groups@);
        }
        out
    } else {
        let mut i: usize = 0;
        while i < n
            invariant
                i <= n,
                n == groups@.len(),
                term@.len() > 0,
                pair_views(out@) =~~= filter_matches(
                    candidate_views(groups@.take(i as int)),
                    term@,
                ),
            decreases n - i,
        {
            proof {
                assert(candidate_views(groups@.take(i + 1)).drop_last() =~~= candidate_views(
                    groups@.take(i as int),
                ));
                assert(candidate_views(groups@.take(i + 1)).last() == groups@[i as int]@);
            }
            match fuzzy_indices(groups[i].as_str(), term) {
                Some(scored) => {
                    let (score, positions) = scored;
                    if score > MATCH_THRESHOLD {
                        out.push((groups[i].clone(), positions));
                    }
                },
                None => {},
            }
            proof {
                assert(pair_views(out@) =~~= filter_matches(
                    candidate_views(groups@.take(i + 1)),
                    term@,
                ));
            }
            i = i + 1;
        }
        proof {
            assert(groups@.take(n as int) =~~= groups@);
        }
        out
    }
}

/// Soundness of the filter: everything in the filtered list is a candidate
/// that passes the threshold, carrying exactly its matched positions.
pub proof fn lemma_filter_matches_sound(candidates: Seq<Seq<char>>, term: Seq<char>, i: int)
    requires
        0 <= i < filter_matches(candidates, term).len(),
    ensures
        passes_filter(filter_matches(candidates, term)[i].0, term),
        filter_matches(candidates, term)[i].1 == match_positions(
            filter_matches(candidates, term)[i].0,
            term,
        ),
        candidates.contains(filter_matches(candidates, term)[i].0),
    decreases candidates.len(),
{
    let filtered = filter_matches(candidates, term);
    if candidates.len() == 0 {
    } else {
        let init = filter_matches(candidates.drop_last(), term);
        if i < init.len() {
            lemma_filter_matches_sound(candidates.drop_last(), term, i);
            let j = choose|j: int|
                0 <= j < candidates.drop_last().len() && candidates.drop_last()[j] == init[i].0;
            assert(candidates[j] == init[i].0);
        } else {
            assert(filtered[i] == (candidates.last(), match_positions(candidates.last(), term)));
            assert(candidates[candidates.len() - 1] == filtered[i].0);
        }
    }
}

/// Completeness of the filter: no candidate that passes the threshold is
/// excluded.
pub proof fn lemma_filter_matches_complete(candidates: Seq<Seq<char>>, term: Seq<char>, j: int)
    requires
        0 <= j < candidates.len(),
        passes_filter(candidates[j], term),
    ensures
        filter_matches(candidates, term).contains(
            (candidates[j], match_positions(candidates[j], term)),
        ),
    decreases candidates.len(),
{
    let filtered = filter_matches(candidates, term);
    let entry = (candidates[j], match_positions(candidates[j], term));
    if j == candidates.len() - 1 {
        assert(filtered[filtered.len() - 1] == entry);
    } else {
        assert(candidates.drop_last()[j] == candidates[j]);
        lemma_filter_matches_complete(candidates.drop_last(), term, j);
        let init = filter_matches(candidates.drop_last(), term);
        let k = choose|k: int| 0 <= k < init.len() && init[k] == entry;
        assert(filtered[k] == entry);
    }
}

/// The candidate texts of a filtered list.
pub open spec fn match_names(pairs: Seq<(Seq<char>, Seq<usize>)>) -> Seq<Seq<char>> {
    pairs.map_values(|p: (Seq<char>, Seq<usize>)| p.0)
}

/// Idempotence of the filter: running the same term over the candidates the
/// filter kept returns the same list again.
pub proof fn lemma_filter_matches_idempotent(candidates: Seq<Seq<char>>, term: Seq<char>)
    ensures
        filter_matches(match_names(filter_matches(candidates, term)), term) == filter_matches(
            candidates,
            term,
        ),
    decreases candidates.len(),
{
    if candidates.len() == 0 {
        assert(match_names(filter_matches(candidates, term)) =~~= Seq::<Seq<char>>::empty());
    } else {
        lemma_filter_matches_idempotent(candidates.drop_last(), term);
        let init = filter_matches(candidates.drop_last(), term);
        if passes_filter(candidates.last(), term) {
            let full = init.push((candidates.last(), match_positions(candidates.last(), term)));
            assert(match_names(full).drop_last() =~~= match_names(init));
            assert(match_names(full).last() == candidates.last());
        } else {
            assert(filter_matches(candidates, term) == init);
        }
    }
}

} // verus!
