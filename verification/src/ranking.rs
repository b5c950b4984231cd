//! The order in which search results are returned.
//!
//! A candidate ranks before another if its score is higher; at equal
//! scores, if its relative path is shorter; at equal lengths, if its
//! relative path comes first. Lengths and order are those of the paths'
//! UTF-8 bytes. Candidates that tie in all three stay in the order in
//! which they were found.

use vstd::prelude::*;
use vstd::string::StringSliceAdditionalSpecFns;
use crate::hits::{candidate_views, CandidateView, ScoredFileHit};

verus! {

/// Whether `a` comes before `b` in lexicographic order: at the first
/// index at which they differ `a` has ended or holds the lesser byte.
pub open spec fn bytes_before(a: Seq<u8>, b: Seq<u8>) -> bool {
    exists|k: int| first_difference(a, b, k)
}

/// Whether `a` and `b` agree below index `k`, and there `a` has ended
/// or holds a lesser byte than `b`.
pub open spec fn first_difference(a: Seq<u8>, b: Seq<u8>, k: int) -> bool {
    &&& 0 <= k <= a.len()
    &&& k < b.len()
    &&& forall|i: int| 0 <= i < k ==> a[i] == b[i]
    &&& (k == a.len() || a[k] < b[k])
}

/// The bytes by which a candidate's relative path is measured and ordered.
pub open spec fn path_bytes(c: CandidateView) -> Seq<u8> {
    vstd::utf8::encode_utf8(c.hit.relative_path)
}

/// Whether `a` ranks strictly before `b`.
pub open spec fn ranks_before(a: CandidateView, b: CandidateView) -> bool {
    ||| a.score > b.score
    ||| a.score == b.score && path_bytes(a).len() < path_bytes(b).len()
    ||| a.score == b.score && path_bytes(a).len() == path_bytes(b).len() && bytes_before(
        path_bytes(a),
        path_bytes(b),
    )
}

/// `sorted` with `x` put behind every candidate that it does not rank
/// before.
pub open spec fn insert_ranked(sorted: Seq<CandidateView>, x: CandidateView) -> Seq<
    CandidateView,
>
    decreases sorted.len(),
{
    if sorted.len() > 0 && ranks_before(x, sorted.last()) {
        insert_ranked(sorted.drop_last(), x).push(sorted.last())
    } else {
        sorted.push(x)
    }
}

/// The candidates in rank order: each in turn is put in its place among
/// those found before it.
pub open spec fn ranked(candidates: Seq<CandidateView>) -> Seq<CandidateView>
    decreases candidates.len(),
{
    if candidates.len() == 0 {
        Seq::empty()
    } else {
        insert_ranked(ranked(candidates.drop_last()), candidates.last())
    }
}

/// Whether no candidate of `s` ranks before one that stands ahead of it.
pub open spec fn in_rank_order(s: Seq<CandidateView>) -> bool {
    forall|i: int, j: int| 0 <= i < j < s.len() ==> !ranks_before(#[trigger] s[j], #[trigger] s[i])
}

/// Lexicographic order is transitive.
pub proof fn lemma_bytes_before_transitive(a: Seq<u8>, b: Seq<u8>, c: Seq<u8>)
    requires
        bytes_before(a, b),
        bytes_before(b, c),
    ensures
        bytes_before(a, c),
{
    let k1 = choose|k: int| first_difference(a, b, k);
    let k2 = choose|k: int| first_difference(b, c, k);
    if k1 < k2 {
        assert(first_difference(a, c, k1));
    } else {
        assert(first_difference(a, c, k2));
    }
}

/// No string comes before itself, and of two strings at most one comes
/// before the other.
pub proof fn lemma_bytes_before_asymmetric(a: Seq<u8>, b: Seq<u8>)
    requires
        bytes_before(a, b),
    ensures
        !bytes_before(b, a),
        a != b,
{
    let k1 = choose|k: int| first_difference(a, b, k);
    if bytes_before(b, a) {
        let k2 = choose|k: int| first_difference(b, a, k);
        if k1 < k2 {
            assert(b[k1] == a[k1]);
        } else if k2 < k1 {
            assert(a[k2] == b[k2]);
        }
    }
}

/// Ranking before is transitive.
pub proof fn lemma_ranks_before_transitive(a: CandidateView, b: CandidateView, c: CandidateView)
    requires
        ranks_before(a, b),
        ranks_before(b, c),
    ensures
        ranks_before(a, c),
{
    if a.score == b.score && b.score == c.score && path_bytes(a).len() == path_bytes(b).len()
        && path_bytes(b).len() == path_bytes(c).len() {
        lemma_bytes_before_transitive(path_bytes(a), path_bytes(b), path_bytes(c));
    }
}

/// Of two candidates at most one ranks before the other.
pub proof fn lemma_ranks_before_asymmetric(a: CandidateView, b: CandidateView)
    requires
        ranks_before(a, b),
    ensures
        !ranks_before(b, a),
{
    if a.score == b.score && path_bytes(a).len() == path_bytes(b).len() {
        lemma_bytes_before_asymmetric(path_bytes(a), path_bytes(b));
    }
}

/// Two candidates of which neither ranks before the other have the same
/// score and the same relative path bytes.
pub proof fn lemma_ties_share_key(a: CandidateView, b: CandidateView)
    requires
        !ranks_before(a, b),
        !ranks_before(b, a),
    ensures
        a.score == b.score,
        path_bytes(a) == path_bytes(b),
{
    let x = path_bytes(a);
    let y = path_bytes(b);
    if x.len() == y.len() && x != y {
        lemma_first_mismatch(x, y, 0);
        let k = choose|k: int|
            0 <= k < x.len() && x[k] != y[k] && forall|i: int| 0 <= i < k ==> x[i] == y[i];
        if x[k] < y[k] {
            assert(first_difference(x, y, k));
        } else {
            assert(first_difference(y, x, k));
        }
    }
}

/// Two different strings of one length have a first index at which
/// they differ.
proof fn lemma_first_mismatch(x: Seq<u8>, y: Seq<u8>, from: int)
    requires
        x.len() == y.len(),
        0 <= from <= x.len(),
        forall|i: int| 0 <= i < from ==> x[i] == y[i],
        x != y,
    ensures
        exists|k: int|
            0 <= k < x.len() && x[k] != y[k] && forall|i: int| 0 <= i < k ==> x[i] == y[i],
    decreases x.len() - from,
{
    if from == x.len() {
        assert(x =~= y);
    } else if x[from] == y[from] {
        lemma_first_mismatch(x, y, from + 1);
    }
}

/// Where `insert_ranked` puts `x`: at the index `at` from which on
/// every candidate is one that `x` ranks before, and below which the
/// next is not.
pub proof fn lemma_insert_ranked_at(sorted: Seq<CandidateView>, x: CandidateView, at: int)
    requires
        0 <= at <= sorted.len(),
        forall|j: int| at <= j < sorted.len() ==> ranks_before(x, #[trigger] sorted[j]),
        at > 0 ==> !ranks_before(x, sorted[at - 1]),
    ensures
        insert_ranked(sorted, x) == sorted.insert(at, x),
    decreases sorted.len(),
{
    if at == sorted.len() {
        assert(sorted.push(x) =~= sorted.insert(at, x));
    } else {
        lemma_insert_ranked_at(sorted.drop_last(), x, at);
        assert(sorted.drop_last().insert(at, x).push(sorted.last()) =~= sorted.insert(at, x));
    }
}

/// Putting a candidate in its place keeps all candidates, and adds it.
pub proof fn lemma_insert_ranked_keeps(sorted: Seq<CandidateView>, x: CandidateView)
    ensures
        insert_ranked(sorted, x).to_multiset() == sorted.to_multiset().insert(x),
        insert_ranked(sorted, x).len() == sorted.len() + 1,
    decreases sorted.len(),
{
    broadcast use vstd::seq_lib::group_to_multiset_ensures;

    if sorted.len() > 0 && ranks_before(x, sorted.last()) {
        let front = sorted.drop_last();
        lemma_insert_ranked_keeps(front, x);
        assert(front.push(sorted.last()) =~= sorted);
        assert(insert_ranked(sorted, x).to_multiset() =~= sorted.to_multiset().insert(x));
    }
}

/// Ranking neither loses nor invents a candidate: the ranked sequence
/// holds each candidate as often as the unranked.
pub proof fn lemma_ranked_is_permutation(candidates: Seq<CandidateView>)
    ensures
        ranked(candidates).to_multiset() == candidates.to_multiset(),
        ranked(candidates).len() == candidates.len(),
    decreases candidates.len(),
{
    broadcast use vstd::seq_lib::group_to_multiset_ensures;

    if candidates.len() == 0 {
        assert(ranked(candidates).to_multiset() =~= candidates.to_multiset());
    } else {
        let front = candidates.drop_last();
        lemma_ranked_is_permutation(front);
        lemma_insert_ranked_keeps(ranked(front), candidates.last());
        assert(front.push(candidates.last()) =~= candidates);
    }
}

/// Putting a candidate in its place keeps rank order.
pub proof fn lemma_insert_ranked_keeps_order(sorted: Seq<CandidateView>, x: CandidateView)
    requires
        in_rank_order(sorted),
    ensures
        in_rank_order(insert_ranked(sorted, x)),
    decreases sorted.len(),
{
    let out = insert_ranked(sorted, x);
    if sorted.len() > 0 && ranks_before(x, sorted.last()) {
        let front = sorted.drop_last();
        let last = sorted.last();
        assert(in_rank_order(front)) by {
            assert forall|i: int, j: int| 0 <= i < j < front.len() implies !ranks_before(
                #[trigger] front[j],
                #[trigger] front[i],
            ) by {
                assert(front[j] == sorted[j] && front[i] == sorted[i]);
            }
        }
        lemma_insert_ranked_keeps_order(front, x);
        lemma_insert_ranked_keeps(front, x);
        let mid = insert_ranked(front, x);
        broadcast use vstd::seq_lib::group_to_multiset_ensures;

        assert forall|i: int, j: int| 0 <= i < j < out.len() implies !ranks_before(
            #[trigger] out[j],
            #[trigger] out[i],
        ) by {
            if j < mid.len() {
                assert(out[i] == mid[i] && out[j] == mid[j]);
            } else {
                assert(out[j] == last);
                assert(out[i] == mid[i]);
                assert(mid.to_multiset().count(mid[i]) > 0);
                if mid[i] == x {
                    lemma_ranks_before_asymmetric(x, last);
                } else {
                    assert(front.to_multiset().count(mid[i]) > 0);
                    let k = choose|k: int| 0 <= k < front.len() && front[k] == mid[i];
                    assert(sorted[k] == mid[i]);
                    assert(!ranks_before(sorted[sorted.len() - 1], sorted[k]));
                }
            }
        }
    } else {
        assert forall|i: int, j: int| 0 <= i < j < out.len() implies !ranks_before(
            #[trigger] out[j],
            #[trigger] out[i],
        ) by {
            if j < sorted.len() {
                assert(out[i] == sorted[i] && out[j] == sorted[j]);
            } else {
                assert(out[j] == x);
                assert(out[i] == sorted[i]);
                if ranks_before(x, sorted[i]) {
                    if i < sorted.len() - 1 {
                        assert(!ranks_before(sorted[sorted.len() - 1], sorted[i]));
                        if ranks_before(sorted.last(), x) {
                            lemma_ranks_before_transitive(sorted.last(), x, sorted[i]);
                        } else {
                            lemma_ties_share_key(x, sorted.last());
                            assert(ranks_before(sorted.last(), sorted[i]));
                        }
                    }
                }
            }
        }
    }
}

/// The ranked sequence is in rank order.
pub proof fn lemma_ranked_in_order(candidates: Seq<CandidateView>)
    ensures
        in_rank_order(ranked(candidates)),
    decreases candidates.len(),
{
    if candidates.len() > 0 {
        lemma_ranked_in_order(candidates.drop_last());
        lemma_insert_ranked_keeps_order(ranked(candidates.drop_last()), candidates.last());
    }
}

/// The indices `order` with `k` put behind every index whose candidate
/// candidate `k` does not rank before.
pub open spec fn insert_index(order: Seq<int>, candidates: Seq<CandidateView>, k: int) -> Seq<int>
    decreases order.len(),
{
    if order.len() > 0 && ranks_before(candidates[k], candidates[order.last()]) {
        insert_index(order.drop_last(), candidates, k).push(order.last())
    } else {
        order.push(k)
    }
}

/// The indices of the first `n` candidates in rank order.
pub open spec fn rank_order(candidates: Seq<CandidateView>, n: int) -> Seq<int>
    decreases n,
{
    if n <= 0 {
        Seq::empty()
    } else {
        insert_index(rank_order(candidates, n - 1), candidates, n - 1)
    }
}

/// The candidates that stand at the indices `order`.
pub open spec fn picked(candidates: Seq<CandidateView>, order: Seq<int>) -> Seq<CandidateView> {
    Seq::new(order.len(), |p: int| candidates[order[p]])
}

/// Whether `order` lists indices below `n`, none of them twice, such
/// that no candidate ranks before one listed ahead of it, and of two
/// that tie the one found first is listed first.
pub open spec fn orders_stably(candidates: Seq<CandidateView>, order: Seq<int>, n: int) -> bool {
    &&& forall|p: int| 0 <= p < order.len() ==> 0 <= #[trigger] order[p] < n
    &&& forall|a: int, b: int|
        0 <= a < b < order.len() ==> {
            &&& #[trigger] order[a] != #[trigger] order[b]
            &&& !ranks_before(candidates[order[b]], candidates[order[a]])
            &&& !ranks_before(candidates[order[a]], candidates[order[b]]) ==> order[a] < order[b]
        }
}

/// Putting an index in its place puts its candidate in its place.
proof fn lemma_insert_index_picks(order: Seq<int>, candidates: Seq<CandidateView>, k: int)
    ensures
        picked(candidates, insert_index(order, candidates, k)) == insert_ranked(
            picked(candidates, order),
            candidates[k],
        ),
    decreases order.len(),
{
    let sorted = picked(candidates, order);
    if order.len() > 0 && ranks_before(candidates[k], candidates[order.last()]) {
        lemma_insert_index_picks(order.drop_last(), candidates, k);
        assert(picked(candidates, order.drop_last()) =~= sorted.drop_last());
        assert(picked(candidates, insert_index(order.drop_last(), candidates, k).push(order.last()))
            =~= picked(candidates, insert_index(order.drop_last(), candidates, k)).push(
            sorted.last(),
        ));
    } else {
        assert(picked(candidates, order.push(k)) =~= sorted.push(candidates[k]));
    }
}

/// Where `insert_index` puts `k`: at some place `at`, behind every index
/// whose candidate it does not rank before and ahead of every other.
proof fn lemma_insert_index_at(order: Seq<int>, candidates: Seq<CandidateView>, k: int) -> (at:
    int)
    ensures
        0 <= at <= order.len(),
        insert_index(order, candidates, k) == order.insert(at, k),
        forall|p: int|
            at <= p < order.len() ==> ranks_before(candidates[k], candidates[#[trigger] order[p]]),
        at > 0 ==> !ranks_before(candidates[k], candidates[order[at - 1]]),
    decreases order.len(),
{
    if order.len() > 0 && ranks_before(candidates[k], candidates[order.last()]) {
        let at = lemma_insert_index_at(order.drop_last(), candidates, k);
        assert(order.drop_last().insert(at, k).push(order.last()) =~= order.insert(at, k));
        assert forall|p: int| at <= p < order.len() implies ranks_before(
            candidates[k],
            candidates[#[trigger] order[p]],
        ) by {
            if p < order.len() - 1 {
                assert(order[p] == order.drop_last()[p]);
            }
        }
        if at > 0 {
            assert(order[at - 1] == order.drop_last()[at - 1]);
        }
        at
    } else {
        assert(order.push(k) =~= order.insert(order.len() as int, k));
        order.len() as int
    }
}

/// Putting the next index in its place keeps the order stable.
proof fn lemma_insert_index_keeps_stable(order: Seq<int>, candidates: Seq<CandidateView>, n: int)
    requires
        0 <= n < candidates.len(),
        orders_stably(candidates, order, n),
    ensures
        orders_stably(candidates, insert_index(order, candidates, n), n + 1),
{
    let at = lemma_insert_index_at(order, candidates, n);
    let out = order.insert(at, n);
    let x = candidates[n];
    assert forall|p: int| 0 <= p < out.len() implies 0 <= #[trigger] out[p] < n + 1 by {
        if p < at {
            assert(out[p] == order[p]);
            assert(0 <= order[p] < n);
        } else if p > at {
            assert(out[p] == order[p - 1]);
            assert(0 <= order[p - 1] < n);
        }
    }
    assert forall|a: int, b: int| 0 <= a < b < out.len() implies {
        &&& #[trigger] out[a] != #[trigger] out[b]
        &&& !ranks_before(candidates[out[b]], candidates[out[a]])
        &&& !ranks_before(candidates[out[a]], candidates[out[b]]) ==> out[a] < out[b]
    } by {
        if b < at {
            assert(out[a] == order[a] && out[b] == order[b]);
        } else if a > at {
            assert(out[a] == order[a - 1] && out[b] == order[b - 1]);
        } else if a < at && b > at {
            assert(out[a] == order[a] && out[b] == order[b - 1]);
        } else if b == at {
            // an earlier index ahead of the new one
            assert(out[a] == order[a] && out[b] == n);
            assert(0 <= order[a] < n);
            if a < at - 1 {
                assert(!ranks_before(candidates[order[at - 1]], candidates[order[a]]));
            }
            if ranks_before(x, candidates[order[a]]) {
                if a < at - 1 {
                    let last = candidates[order[at - 1]];
                    if ranks_before(last, x) {
                        lemma_ranks_before_transitive(last, x, candidates[order[a]]);
                    } else {
                        lemma_ties_share_key(x, last);
                    }
                }
            }
        } else {
            // the new index ahead of one it ranks before
            assert(a == at);
            assert(out[a] == n && out[b] == order[b - 1]);
            assert(0 <= order[b - 1] < n);
            assert(ranks_before(x, candidates[order[b - 1]]));
            lemma_ranks_before_asymmetric(x, candidates[order[b - 1]]);
        }
    }
}

/// The first `n` candidates are ranked as `rank_order` lists them, and
/// that order is stable.
proof fn lemma_rank_order(candidates: Seq<CandidateView>, n: int)
    requires
        0 <= n <= candidates.len(),
    ensures
        rank_order(candidates, n).len() == n,
        orders_stably(candidates, rank_order(candidates, n), n),
        ranked(candidates.take(n)) == picked(candidates, rank_order(candidates, n)),
    decreases n,
{
    if n == 0 {
        assert(ranked(candidates.take(0)) =~= picked(candidates, rank_order(candidates, 0)));
    } else {
        let before = rank_order(candidates, n - 1);
        lemma_rank_order(candidates, n - 1);
        lemma_insert_index_keeps_stable(before, candidates, n - 1);
        lemma_insert_index_picks(before, candidates, n - 1);
        lemma_insert_index_at(before, candidates, n - 1);
        assert(candidates.take(n).drop_last() == candidates.take(n - 1));
        assert(candidates.take(n).last() == candidates[n - 1]);
    }
}

/// Ranking is a stable sort. The ranked sequence lists every candidate
/// once, by its index among the candidates; no candidate ranks before
/// one listed ahead of it; and of two candidates that tie, the one found
/// first comes first.
pub proof fn lemma_ranking_is_stable(candidates: Seq<CandidateView>)
    ensures
        rank_order(candidates, candidates.len() as int).len() == candidates.len(),
        orders_stably(
            candidates,
            rank_order(candidates, candidates.len() as int),
            candidates.len() as int,
        ),
        ranked(candidates) == picked(candidates, rank_order(candidates, candidates.len() as int)),
{
    lemma_rank_order(candidates, candidates.len() as int);
    assert(candidates.take(candidates.len() as int) == candidates);
}

/// Decides lexicographic order of two byte strings.
pub fn lexicographically_before(a: &[u8], b: &[u8]) -> (before: bool)
    ensures
        before == bytes_before(a@, b@),
{
    let mut k: usize = 0;
    while k < a.len() && k < b.len()
        invariant
            k <= a.len(),
            k <= b.len(),
            forall|i: int| 0 <= i < k ==> a@[i] == b@[i],
        decreases a.len() - k,
    {
        if a[k] != b[k] {
            if a[k] < b[k] {
                assert(first_difference(a@, b@, k as int));
                return true;
            } else {
                assert forall|j: int| !first_difference(a@, b@, j) by {
                    if first_difference(a@, b@, j) {
                        if j > k {
                            assert(a@[k as int] == b@[k as int]);
                        }
                    }
                }
                return false;
            }
        }
        k += 1;
    }
    if k < b.len() {
        assert(first_difference(a@, b@, k as int));
        true
    } else {
        assert forall|j: int| !first_difference(a@, b@, j) by {}
        false
    }
}

/// Decides whether `a` ranks strictly before `b`.
pub fn outranks(a: &ScoredFileHit, b: &ScoredFileHit) -> (before: bool)
    ensures
        before == ranks_before(a@, b@),
{
    if a.score != b.score {
        return a.score > b.score;
    }
    let x = a.hit.relative_path.as_str().as_bytes();
    let y = b.hit.relative_path.as_str().as_bytes();
    if x.len() != y.len() {
        return x.len() < y.len();
    }
    lexicographically_before(x, y)
}

/// Puts scored hits in rank order. Hits that tie keep their order.
pub fn rank(candidates: Vec<ScoredFileHit>) -> (sorted: Vec<ScoredFileHit>)
    ensures
        candidate_views(sorted@) == ranked(candidate_views(candidates@)),
{
    let ghost all = candidate_views(candidates@);
    let mut sorted: Vec<ScoredFileHit> = Vec::new();
    assert(candidate_views(sorted@) =~= ranked(all.take(0)));
    for c in it: candidates
        invariant
            it.seq() == candidates@,
            all == candidate_views(candidates@),
            candidate_views(sorted@) == ranked(all.take(it.index())),
    {
        let ghost done = all.take(it.index());
        let ghost before = candidate_views(sorted@);
        let mut at: usize = sorted.len();
        while at > 0 && outranks(&c, &sorted[at - 1])
            invariant
                at <= sorted.len(),
                before == candidate_views(sorted@),
                forall|j: int| at <= j < sorted.len() ==> ranks_before(c@, #[trigger] before[j]),
            decreases at,
        {
            at -= 1;
        }
        proof {
            lemma_insert_ranked_at(before, c@, at as int);
            assert(all.take(it.index() + 1).drop_last() == done);
            assert(all.take(it.index() + 1).last() == c@);
        }
        sorted.insert(at, c);
        assert(candidate_views(sorted@) =~= before.insert(at as int, c@));
    }
    assert(all.take(all.len() as int) == all);
    sorted
}

} // verus!
