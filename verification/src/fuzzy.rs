//! Fuzzy matching of a query against a candidate string.
//!
//! A candidate that contains the query as one piece is scored by where
//! the piece starts. Any other candidate matches only if the query's
//! characters occur in it in order; each is taken at its first occurrence
//! after the one before, and that choice is never revised.

use vstd::prelude::*;
use crate::text::{
    find_char,
    first_index_of,
    lemma_first_index_of,
    lowercase,
    lowercase_chars,
};

verus! {

/// Characters after which a word is taken to begin.
pub open spec fn is_boundary(c: char) -> bool {
    c == '/' || c == '_' || c == '-' || c == '.' || c == ' '
}

/// Whether `needle` stands in `hay` at index `at`.
pub open spec fn occurs_at(hay: Seq<char>, needle: Seq<char>, at: int) -> bool {
    &&& 0 <= at
    &&& at + needle.len() <= hay.len()
    &&& hay.subrange(at, at + needle.len()) == needle
}

/// The first index at or after `from` at which `needle` stands in `hay`.
pub open spec fn first_occurrence(hay: Seq<char>, needle: Seq<char>, from: int) -> Option<int>
    decreases hay.len() - from + 1,
{
    if from < 0 || from + needle.len() > hay.len() {
        None
    } else if occurs_at(hay, needle, from) {
        Some(from)
    } else {
        first_occurrence(hay, needle, from + 1)
    }
}

/// Bonus for a match that begins the candidate or follows a boundary.
pub open spec fn boundary_bonus(candidate: Seq<char>, at: int, first: int, other: int) -> int {
    if at == 0 {
        first
    } else if is_boundary(candidate[at - 1]) {
        other
    } else {
        0
    }
}

/// Score of a candidate that holds the whole query at index `at`.
pub open spec fn substring_score(candidate: Seq<char>, at: int) -> int {
    100 + boundary_bonus(candidate, at, 20, 15) - vstd::math::min(at, 20) - candidate.len() / 5
}

/// What one matched character adds: `at` is its index in the candidate,
/// `gap` the number of candidate characters passed over since the match
/// before it (since the start, for the first).
pub open spec fn match_score(candidate: Seq<char>, at: int, gap: int) -> int {
    10 + vstd::math::max(0, 18 - at) - vstd::math::min(gap, 10) + boundary_bonus(
        candidate,
        at,
        12,
        10,
    ) + if gap == 0 {
        12int
    } else {
        0int
    }
}

/// Sum of the match scores of the query characters from index `qi` on,
/// when the match before them was at index `last` (`-1` for none).
/// Spaces in the query are passed over. `None` if a character is not found.
pub open spec fn subsequence_score(
    query: Seq<char>,
    candidate: Seq<char>,
    qi: int,
    last: int,
) -> Option<int>
    decreases query.len() - qi,
{
    if qi < 0 || qi >= query.len() {
        Some(0)
    } else if query[qi] == ' ' {
        subsequence_score(query, candidate, qi + 1, last)
    } else {
        match first_index_of(candidate, query[qi], last + 1) {
            None => None,
            Some(at) => match subsequence_score(query, candidate, qi + 1, at) {
                None => None,
                Some(rest) => Some(match_score(candidate, at, at - last - 1) + rest),
            },
        }
    }
}

/// Bonus for a short candidate.
pub open spec fn length_bonus(candidate: Seq<char>) -> int {
    vstd::math::max(0, 24 - candidate.len() / 3)
}

/// The score of `candidate` for `query`, both already in lowercase;
/// `None` when the candidate does not match.
pub open spec fn fuzzy_score(query: Seq<char>, candidate: Seq<char>) -> Option<int> {
    if query.len() == 0 {
        Some(0)
    } else {
        match first_occurrence(candidate, query, 0) {
            Some(at) => Some(substring_score(candidate, at)),
            None => match subsequence_score(query, candidate, 0, -1) {
                None => None,
                Some(total) => Some(total + length_bonus(candidate)),
            },
        }
    }
}

/// The score of `candidate` for `query`, letter case set aside.
pub open spec fn fuzzy_match(query: Seq<char>, candidate: Seq<char>) -> Option<int> {
    if query.len() == 0 {
        Some(0)
    } else {
        fuzzy_score(lowercase(query), lowercase(candidate))
    }
}

/// `first_occurrence` finds the least index at which the needle stands.
pub proof fn lemma_first_occurrence(hay: Seq<char>, needle: Seq<char>, from: int)
    requires
        0 <= from,
    ensures
        match first_occurrence(hay, needle, from) {
            Some(at) => from <= at && occurs_at(hay, needle, at) && forall|j: int|
                from <= j < at ==> !occurs_at(hay, needle, j),
            None => forall|j: int| from <= j ==> !occurs_at(hay, needle, j),
        },
    decreases hay.len() - from + 1,
{
    if from + needle.len() <= hay.len() && !occurs_at(hay, needle, from) {
        lemma_first_occurrence(hay, needle, from + 1);
    }
}

/// A candidate that holds the whole query is scored by the place of its
/// first occurrence alone, whatever the in-order walk would have given.
pub proof fn lemma_substring_takes_priority(query: Seq<char>, candidate: Seq<char>, at: int)
    requires
        query.len() > 0,
        occurs_at(candidate, query, at),
    ensures
        first_occurrence(candidate, query, 0) matches Some(first) && first <= at && fuzzy_score(
            query,
            candidate,
        ) == Some(substring_score(candidate, first)),
{
    lemma_first_occurrence(candidate, query, 0);
}

/// Whether the characters of `query` from index `qi` on, spaces apart,
/// occur in `candidate` in that order, at indices from `from` on.
pub open spec fn occurs_in_order(query: Seq<char>, candidate: Seq<char>, qi: int, from: int) -> bool
    decreases query.len() - qi,
{
    if qi < 0 || qi >= query.len() {
        true
    } else if query[qi] == ' ' {
        occurs_in_order(query, candidate, qi + 1, from)
    } else {
        exists|at: int|
            from <= at < candidate.len() && #[trigger] candidate[at] == query[qi]
                && occurs_in_order(query, candidate, qi + 1, at + 1)
    }
}

/// What occurs in order from some index on occurs in order from any
/// earlier index on.
pub proof fn lemma_in_order_from_earlier(
    query: Seq<char>,
    candidate: Seq<char>,
    qi: int,
    from: int,
    earlier: int,
)
    requires
        earlier <= from,
        occurs_in_order(query, candidate, qi, from),
    ensures
        occurs_in_order(query, candidate, qi, earlier),
    decreases query.len() - qi,
{
    if qi < 0 || qi >= query.len() {
        // nothing is left to find
    } else if query[qi] == ' ' {
        lemma_in_order_from_earlier(query, candidate, qi + 1, from, earlier);
    } else {
        let at = choose|at: int|
            from <= at < candidate.len() && #[trigger] candidate[at] == query[qi]
                && occurs_in_order(query, candidate, qi + 1, at + 1);
        assert(earlier <= at < candidate.len() && candidate[at] == query[qi] && occurs_in_order(
            query,
            candidate,
            qi + 1,
            at + 1,
        ));
    }
}

/// The walk finds the query exactly if its characters occur in order:
/// taking each character at its first occurrence loses no match.
pub proof fn lemma_walk_finds_what_is_in_order(
    query: Seq<char>,
    candidate: Seq<char>,
    qi: int,
    last: int,
)
    requires
        -1 <= last,
    ensures
        subsequence_score(query, candidate, qi, last) is Some <==> occurs_in_order(
            query,
            candidate,
            qi,
            last + 1,
        ),
    decreases query.len() - qi,
{
    if qi < 0 || qi >= query.len() {
        // nothing is left to find
    } else if query[qi] == ' ' {
        lemma_walk_finds_what_is_in_order(query, candidate, qi + 1, last);
    } else {
        lemma_first_index_of(candidate, query[qi], last + 1);
        match first_index_of(candidate, query[qi], last + 1) {
            None => {
                if occurs_in_order(query, candidate, qi, last + 1) {
                    let at = choose|at: int|
                        last + 1 <= at < candidate.len() && #[trigger] candidate[at] == query[qi]
                            && occurs_in_order(query, candidate, qi + 1, at + 1);
                    assert(candidate[at] != query[qi]);
                }
            },
            Some(first) => {
                lemma_walk_finds_what_is_in_order(query, candidate, qi + 1, first);
                if occurs_in_order(query, candidate, qi, last + 1) {
                    let at = choose|at: int|
                        last + 1 <= at < candidate.len() && #[trigger] candidate[at] == query[qi]
                            && occurs_in_order(query, candidate, qi + 1, at + 1);
                    assert(first <= at);
                    lemma_in_order_from_earlier(query, candidate, qi + 1, at + 1, first + 1);
                }
                if subsequence_score(query, candidate, qi + 1, first) is Some {
                    assert(candidate[first] == query[qi]);
                }
            },
        }
    }
}

/// A query that stands in the candidate as one piece occurs in it in
/// order.
pub proof fn lemma_piece_is_in_order(query: Seq<char>, candidate: Seq<char>, at: int, qi: int)
    requires
        occurs_at(candidate, query, at),
        0 <= qi <= query.len(),
    ensures
        occurs_in_order(query, candidate, qi, at + qi),
    decreases query.len() - qi,
{
    if qi < query.len() {
        lemma_piece_is_in_order(query, candidate, at, qi + 1);
        if query[qi] == ' ' {
            lemma_in_order_from_earlier(query, candidate, qi + 1, at + qi + 1, at + qi);
        } else {
            assert(candidate.subrange(at, at + query.len())[qi] == candidate[at + qi]);
            assert(candidate[at + qi] == query[qi]);
        }
    }
}

/// A candidate matches a query exactly if the query's characters, spaces
/// apart, occur in it in order.
pub proof fn lemma_match_means_in_order(query: Seq<char>, candidate: Seq<char>)
    requires
        query.len() > 0,
    ensures
        fuzzy_score(query, candidate) is Some <==> occurs_in_order(query, candidate, 0, 0),
{
    lemma_first_occurrence(candidate, query, 0);
    lemma_walk_finds_what_is_in_order(query, candidate, 0, -1);
    if let Some(at) = first_occurrence(candidate, query, 0) {
        lemma_piece_is_in_order(query, candidate, at, 0);
        lemma_in_order_from_earlier(query, candidate, 0, at, 0);
    }
}

/// Of two places at which the query may stand, the earlier scores at
/// least as high, unless the later earns the greater boundary bonus.
pub proof fn lemma_earlier_scores_higher(candidate: Seq<char>, earlier: int, later: int)
    requires
        0 <= earlier <= later,
        boundary_bonus(candidate, earlier, 20, 15) >= boundary_bonus(candidate, later, 20, 15),
    ensures
        substring_score(candidate, earlier) >= substring_score(candidate, later),
{
}

/// Of two candidates that hold the query at the same place, behind the
/// same character, the shorter scores at least as high.
pub proof fn lemma_shorter_scores_higher(shorter: Seq<char>, longer: Seq<char>, at: int)
    requires
        0 <= at,
        shorter.len() <= longer.len(),
        at > 0 ==> at <= shorter.len() && shorter[at - 1] == longer[at - 1],
    ensures
        substring_score(shorter, at) >= substring_score(longer, at),
        length_bonus(shorter) >= length_bonus(longer),
{
    assert(shorter.len() / 5 <= longer.len() / 5);
    assert(shorter.len() / 3 <= longer.len() / 3);
}

/// The score of a candidate that holds the whole query lies between 80
/// and 120, less a fifth of the candidate's length.
pub proof fn lemma_substring_score_bounds(candidate: Seq<char>, at: int)
    requires
        0 <= at,
    ensures
        80 - candidate.len() / 5 <= substring_score(candidate, at) <= 120 - candidate.len() / 5,
{
}

/// Every matched character adds between 0 and 52.
pub proof fn lemma_match_score_bounds(candidate: Seq<char>, at: int, gap: int)
    requires
        0 <= gap <= at,
    ensures
        0 <= match_score(candidate, at, gap) <= 52,
{
}

/// Whether `needle` stands in `hay` at index `at`.
fn stands_at(hay: &[char], needle: &[char], at: usize) -> (found: bool)
    requires
        at + needle.len() <= hay.len(),
    ensures
        found == occurs_at(hay@, needle@, at as int),
{
    let mut k: usize = 0;
    while k < needle.len()
        invariant
            k <= needle.len(),
            at + needle.len() <= hay.len(),
            forall|j: int| 0 <= j < k ==> hay@[at + j] == needle@[j],
        decreases needle.len() - k,
    {
        if hay[at + k] != needle[k] {
            proof {
                let piece = hay@.subrange(at as int, at + needle.len());
                assert(piece[k as int] == hay@[at + k]);
            }
            return false;
        }
        k += 1;
    }
    assert(hay@.subrange(at as int, at + needle.len()) =~= needle@);
    true
}

/// Finds the first place at which `needle` stands in `hay`.
pub fn find_substring(hay: &[char], needle: &[char]) -> (found: Option<usize>)
    ensures
        match found {
            Some(at) => first_occurrence(hay@, needle@, 0) == Some(at as int),
            None => first_occurrence(hay@, needle@, 0) is None,
        },
{
    if needle.len() > hay.len() {
        return None;
    }
    if needle.len() == 0 {
        assert(hay@.subrange(0, 0) =~= needle@);
        return Some(0);
    }
    let last: usize = hay.len() - needle.len();
    let mut at: usize = 0;
    while at <= last
        invariant
            at <= last + 1,
            last == hay.len() - needle.len(),
            needle.len() > 0,
            first_occurrence(hay@, needle@, 0) == first_occurrence(hay@, needle@, at as int),
        decreases last + 1 - at,
    {
        if stands_at(hay, needle, at) {
            return Some(at);
        }
        at += 1;
    }
    None
}

/// Tests a character for being a word boundary.
pub fn char_is_boundary(c: char) -> (b: bool)
    ensures
        b == is_boundary(c),
{
    c == '/' || c == '_' || c == '-' || c == '.' || c == ' '
}

/// Computes the boundary bonus of a match at index `at`.
fn boundary_bonus_at(candidate: &[char], at: usize, first: i128, other: i128) -> (bonus: i128)
    requires
        at < candidate.len(),
    ensures
        bonus == boundary_bonus(candidate@, at as int, first as int, other as int),
{
    if at == 0 {
        first
    } else if char_is_boundary(candidate[at - 1]) {
        other
    } else {
        0
    }
}

/// Scores a candidate against a query, both already in lowercase.
pub fn score_lowered(query: &[char], candidate: &[char]) -> (score: Option<i128>)
    ensures
        score matches Some(s) ==> fuzzy_score(query@, candidate@) == Some(s as int),
        score is None ==> fuzzy_score(query@, candidate@) is None,
{
    if query.len() == 0 {
        return Some(0);
    }
    if let Some(at) = find_substring(candidate, query) {
        proof {
            lemma_first_occurrence(candidate@, query@, 0);
        }
        let bonus = boundary_bonus_at(candidate, at, 20, 15);
        let near: i128 = if at < 20 {
            at as i128
        } else {
            20
        };
        return Some(100 + bonus - near - (candidate.len() / 5) as i128);
    }
    let mut total: i128 = 0;
    let mut next: usize = 0;
    let mut qi: usize = 0;
    while qi < query.len()
        invariant
            qi <= query.len(),
            next <= candidate.len(),
            0 <= total <= 52 * qi,
            query.len() > 0,
            first_occurrence(candidate@, query@, 0) is None,
            subsequence_score(query@, candidate@, 0, -1) == match subsequence_score(
                query@,
                candidate@,
                qi as int,
                next - 1,
            ) {
                None => None,
                Some(rest) => Some(total + rest),
            },
        decreases query.len() - qi,
    {
        let ch = query[qi];
        let ghost here = subsequence_score(query@, candidate@, qi as int, next - 1);
        if ch != ' ' {
            match find_char(candidate, ch, next) {
                None => {
                    assert(first_index_of(candidate@, ch, (next - 1) + 1) is None);
                    assert(here is None);
                    return None;
                },
                Some(at) => {
                    let gap: usize = at - next;
                    let far: i128 = if at < 18 {
                        18 - at as i128
                    } else {
                        0
                    };
                    let passed: i128 = if gap < 10 {
                        gap as i128
                    } else {
                        10
                    };
                    let run: i128 = if gap == 0 {
                        12
                    } else {
                        0
                    };
                    let gained = 10 + far - passed + boundary_bonus_at(candidate, at, 12, 10) + run;
                    assert(first_index_of(candidate@, ch, (next - 1) + 1) == Some(at as int));
                    assert(gained == match_score(candidate@, at as int, at - (next - 1) - 1));
                    assert(here == match subsequence_score(
                        query@,
                        candidate@,
                        qi + 1,
                        at as int,
                    ) {
                        None => None,
                        Some(rest) => Some(gained + rest),
                    });
                    total = total + gained;
                    next = at + 1;
                },
            }
        }
        qi += 1;
    }
    let short: i128 = if candidate.len() / 3 < 24 {
        24 - (candidate.len() / 3) as i128
    } else {
        0
    };
    Some(total + short)
}

/// Scores `candidate` against `query` without regard to letter case.
///
/// An empty query matches everything with score 0. Otherwise both strings
/// are put in lowercase and scored by `fuzzy_score`: higher is better,
/// `None` is no match. The same two strings always give the same score.
pub fn fuzzy_match_score(query: &str, candidate: &str) -> (score: Option<i128>)
    ensures
        score matches Some(s) ==> fuzzy_match(query@, candidate@) == Some(s as int),
        score is None ==> fuzzy_match(query@, candidate@) is None,
{
    if query.is_empty() {
        return Some(0);
    }
    let q = lowercase_chars(query);
    let c = lowercase_chars(candidate);
    score_lowered(q.as_slice(), c.as_slice())
}

} // verus!
