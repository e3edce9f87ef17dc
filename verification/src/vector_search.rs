use crate::json::string_pair_views;
use crate::outside::{pattern_compiles, pattern_found, regex_is_match};
use crate::text::{
    ascii_lowercase, chars_of, count_char, decimal, decimal_text, first_n, lemma_split_on,
    split_on,
};
use vstd::prelude::*;

verus! {

/// How many neighbours the hybrid search asks the index for.
pub const HYBRID_NEIGHBOURS: u64 = 10;

/// How many neighbours the plain search asks the index for.
pub const PLAIN_NEIGHBOURS: u64 = 5;

/// The most results a hybrid search hands out.
pub const RESULT_LIMIT: usize = 5;

/// The bit pattern of the single-precision number 0.75.
pub const HYBRID_THRESHOLD: u32 = 0x3F40_0000;

/// The bit pattern of the single-precision number nearest to 0.79.
pub const PLAIN_THRESHOLD: u32 = 0x3F4A_3D71;

/// The bit pattern of positive infinity in single precision.
pub const POSITIVE_INFINITY: u32 = 0x7F80_0000;

/// The word that marks a question as one about projects.
pub const PROJECT_WORD: &'static str = r"\bproject\b";

/// The word that marks a question as one about issues.
pub const ISSUE_WORD: &'static str = r"\bissue\b";

/// A neighbour that the vector index returned for a query.
///
/// `score` is the bit pattern of the single-precision similarity. On the
/// patterns from zero up to positive infinity the order of the patterns is the
/// order of the numbers they encode; larger patterns encode negative numbers
/// and NaN.
pub struct Candidate {
    pub score: u32,
    pub entity_id: String,
    pub text: String,
}

pub struct CandidateView {
    pub score: u32,
    pub entity_id: Seq<char>,
    pub text: Seq<char>,
}

impl View for Candidate {
    type V = CandidateView;

    open spec fn view(&self) -> CandidateView {
        CandidateView { score: self.score, entity_id: self.entity_id@, text: self.text@ }
    }
}

/// What a question asks for. Both may hold, or neither.
#[derive(Clone, Copy, Debug, PartialEq, Eq, Structural)]
pub struct Intent {
    pub wants_project: bool,
    pub wants_issue: bool,
}

#[derive(Clone, Copy, Debug, PartialEq, Eq, Structural)]
pub enum SearchError {
    /// One of the two intent words was not accepted as a pattern.
    Pattern,
    /// The generation service gave no embedding for the question.
    NoEmbedding,
}

pub open spec fn candidate_views(candidates: Seq<Candidate>) -> Seq<CandidateView> {
    candidates.map_values(|c: Candidate| c@)
}

pub open spec fn result_of(c: CandidateView) -> (Seq<char>, Seq<char>) {
    (c.entity_id, c.text)
}

pub open spec fn results_of(pool: Seq<CandidateView>) -> Seq<(Seq<char>, Seq<char>)> {
    pool.map_values(|c: CandidateView| result_of(c))
}

/// A score is above a threshold when it encodes a larger number: NaN and the
/// negative numbers are above nothing.
pub open spec fn scores_above(score: u32, threshold: u32) -> bool {
    threshold < score <= POSITIVE_INFINITY
}

/// An id stands for an issue when `/` cuts it into exactly seven parts, and
/// for a project otherwise.
pub open spec fn is_issue_shaped(entity_id: Seq<char>) -> bool {
    split_on(entity_id, '/').len() == 7
}

/// Where `c` goes in a pool that is ordered by falling score: behind every
/// entry that scores at least as much.
pub open spec fn insert_by_score(pool: Seq<CandidateView>, c: CandidateView) -> Seq<CandidateView>
    decreases pool.len(),
{
    if pool.len() == 0 || pool.last().score >= c.score {
        pool.push(c)
    } else {
        insert_by_score(pool.drop_last(), c).push(pool.last())
    }
}

/// Whether `c` belongs to the pool of issues (`issues`) or of projects.
pub open spec fn in_pool(c: CandidateView, issues: bool) -> bool {
    scores_above(c.score, HYBRID_THRESHOLD) && is_issue_shaped(c.entity_id) == issues
}

/// The candidates of one shape that score above the hybrid threshold, by
/// falling score; candidates of equal score stay in the order they came in.
pub open spec fn pool_of(candidates: Seq<CandidateView>, issues: bool) -> Seq<CandidateView>
    decreases candidates.len(),
{
    if candidates.len() == 0 {
        Seq::empty()
    } else if in_pool(candidates.last(), issues) {
        insert_by_score(pool_of(candidates.drop_last(), issues), candidates.last())
    } else {
        pool_of(candidates.drop_last(), issues)
    }
}

/// The order in which the survivors are offered: the issues lead only where
/// the question asks for issues and not for projects.
pub open spec fn priority_order(intent: Intent, candidates: Seq<CandidateView>) -> Seq<
    CandidateView,
> {
    if intent.wants_issue && !intent.wants_project {
        pool_of(candidates, true) + pool_of(candidates, false)
    } else {
        pool_of(candidates, false) + pool_of(candidates, true)
    }
}

/// What a hybrid search returns for `candidates`.
pub open spec fn hybrid_results(intent: Intent, candidates: Seq<CandidateView>) -> Seq<
    (Seq<char>, Seq<char>),
> {
    results_of(first_n(priority_order(intent, candidates), RESULT_LIMIT as int))
}

/// What a plain search returns: the candidates above the plain threshold, in
/// the order of the index.
pub open spec fn plain_results(candidates: Seq<CandidateView>) -> Seq<(Seq<char>, Seq<char>)>
    decreases candidates.len(),
{
    if candidates.len() == 0 {
        Seq::empty()
    } else if scores_above(candidates.last().score, PLAIN_THRESHOLD) {
        plain_results(candidates.drop_last()).push(result_of(candidates.last()))
    } else {
        plain_results(candidates.drop_last())
    }
}

pub fn is_issue_id(entity_id: &str) -> (r: bool)
    ensures
        r == is_issue_shaped(entity_id@),
{
    let chars = chars_of(entity_id);
    proof {
        lemma_split_on(chars@, '/');
    }
    count_char(&chars, '/') == 6
}

pub fn score_above(score: u32, threshold: u32) -> (r: bool)
    ensures
        r == scores_above(score, threshold),
{
    threshold < score && score <= POSITIVE_INFINITY
}

fn insert_candidate(pool: &mut Vec<Candidate>, c: Candidate)
    ensures
        candidate_views(final(pool)@) == insert_by_score(candidate_views(old(pool)@), c@),
{
    let mut i: usize = pool.len();
    proof {
        let views = candidate_views(pool@);
        assert(views.take(i as int) == views);
        assert(views + views.skip(i as int) == views);
    }
    while i > 0 && pool[i - 1].score < c.score
        invariant
            i <= pool.len(),
            *pool == *old(pool),
            insert_by_score(candidate_views(pool@), c@) == insert_by_score(
                candidate_views(pool@).take(i as int),
                c@,
            ) + candidate_views(pool@).skip(i as int),
        decreases i,
    {
        proof {
            let views = candidate_views(pool@);
            let head = views.take(i as int);
            assert(head.last() == views[i - 1]);
            assert(head.drop_last() == views.take(i - 1));
            assert(seq![views[i - 1]] + views.skip(i as int) == views.skip(i - 1));
            let rest = insert_by_score(head.drop_last(), c@);
            assert(insert_by_score(head, c@) == rest.push(head.last()));
            assert(rest.push(head.last()) + views.skip(i as int) == rest + views.skip(i - 1));
        }
        i -= 1;
    }
    proof {
        let views = candidate_views(pool@);
        let head = views.take(i as int);
        assert(insert_by_score(head, c@) == head.push(c@));
        assert(head.push(c@) + views.skip(i as int) == views.insert(i as int, c@));
    }
    let ghost before = pool@;
    pool.insert(i, c);
    proof {
        assert(candidate_views(pool@) == candidate_views(before).insert(i as int, c@));
    }
}

/// Moves entries from the front of `pool` to the end of `results` until
/// `results` holds `limit` entries or `pool` is empty.
fn drain_pool(pool: Vec<Candidate>, results: &mut Vec<(String, String)>, limit: usize) -> (rest:
    Vec<Candidate>)
    ensures
        ({
            let room = if old(results)@.len() >= limit {
                0
            } else {
                limit - old(results)@.len()
            };
            let views = candidate_views(pool@);
            &&& string_pair_views(final(results)@) == string_pair_views(old(results)@) + results_of(
                first_n(views, room),
            )
            &&& candidate_views(rest@) == views.skip(first_n(views, room).len() as int)
        }),
{
    let ghost views = candidate_views(pool@);
    let ghost room: int = if results@.len() >= limit {
        0
    } else {
        limit - results@.len()
    };
    let mut rest: Vec<Candidate> = Vec::new();
    proof {
        assert(views.take(0) == Seq::<CandidateView>::empty());
        assert(string_pair_views(results@) + results_of(views.take(0)) == string_pair_views(results@));
    }
    for c in it: pool
        invariant
            it.seq() == pool@,
            views == candidate_views(pool@),
            room == if old(results)@.len() >= limit {
                0
            } else {
                limit - old(results)@.len()
            },
            ({
                let taken = if it.index() <= room {
                    it.index()
                } else {
                    room
                };
                &&& string_pair_views(results@) == string_pair_views(old(results)@) + results_of(
                    views.take(taken),
                )
                &&& candidate_views(rest@) == views.subrange(taken, it.index())
                &&& results@.len() == old(results)@.len() + taken
            }),
    {
        let ghost k = it.index();
        let ghost before = results@;
        let ghost rest_before = rest@;
        if results.len() < limit {
            let Candidate { score: _, entity_id, text } = c;
            results.push((entity_id, text));
            proof {
                assert(k < room);
                assert(string_pair_views(results@) == string_pair_views(before).push(result_of(views[k])));
                assert(results_of(views.take(k + 1)) == results_of(views.take(k)).push(
                    result_of(views[k]),
                ));
                assert(views.subrange(k + 1, k + 1) == views.subrange(k, k));
            }
        } else {
            rest.push(c);
            proof {
                assert(k >= room);
                assert(candidate_views(rest@) == candidate_views(rest_before).push(views[k]));
                assert(views.subrange(room, k + 1) == views.subrange(room, k).push(views[k]));
            }
        }
    }
    proof {
        let n = views.len() as int;
        if n <= room {
            assert(views.take(n) == views);
            assert(views.subrange(n, n) == views.skip(n));
        } else {
            assert(views.subrange(room, n) == views.skip(room));
        }
    }
    rest
}

/// Splits `candidates` into the pool of projects and the pool of issues.
fn build_pools(candidates: Vec<Candidate>) -> (pools: (Vec<Candidate>, Vec<Candidate>))
    ensures
        candidate_views(pools.0@) == pool_of(candidate_views(candidates@), false),
        candidate_views(pools.1@) == pool_of(candidate_views(candidates@), true),
{
    let ghost views = candidate_views(candidates@);
    let mut projects: Vec<Candidate> = Vec::new();
    let mut issues: Vec<Candidate> = Vec::new();
    proof {
        assert(views.take(0) == Seq::<CandidateView>::empty());
    }
    for c in it: candidates
        invariant
            it.seq() == candidates@,
            views == candidate_views(candidates@),
            candidate_views(projects@) == pool_of(views.take(it.index()), false),
            candidate_views(issues@) == pool_of(views.take(it.index()), true),
    {
        proof {
            let k = it.index();
            assert(views.take(k + 1).drop_last() == views.take(k));
            assert(views.take(k + 1).last() == c@);
        }
        if score_above(c.score, HYBRID_THRESHOLD) {
            if is_issue_id(c.entity_id.as_str()) {
                insert_candidate(&mut issues, c);
            } else {
                insert_candidate(&mut projects, c);
            }
        }
    }
    proof {
        assert(views.take(views.len() as int) == views);
    }
    (projects, issues)
}

/// What draining `pool` adds to a result list that holds `have` entries.
pub open spec fn drained(pool: Seq<CandidateView>, have: int) -> Seq<CandidateView> {
    first_n(
        pool,
        if have >= RESULT_LIMIT {
            0
        } else {
            RESULT_LIMIT - have
        },
    )
}

proof fn lemma_results_of_add(a: Seq<CandidateView>, b: Seq<CandidateView>)
    ensures
        results_of(a) + results_of(b) == results_of(a + b),
        results_of(a).len() == a.len(),
{
    assert(results_of(a) + results_of(b) =~= results_of(a + b));
}

/// Ranks the neighbours that the index returned for a question of the given
/// intent: at most five, none at or under the threshold, the pool that the
/// question asks for first.
pub fn rank_hybrid(intent: Intent, candidates: Vec<Candidate>) -> (results: Vec<(String, String)>)
    ensures
        string_pair_views(results@) == hybrid_results(intent, candidate_views(candidates@)),
{
    let ghost views = candidate_views(candidates@);
    let (projects, issues) = build_pools(candidates);
    let mut results: Vec<(String, String)> = Vec::new();
    let mut projects = projects;
    let mut issues = issues;
    let ghost mut taken: Seq<CandidateView> = Seq::empty();
    proof {
        assert(string_pair_views(results@) == results_of(taken));
    }
    if intent.wants_project {
        let ghost step = drained(candidate_views(projects@), taken.len() as int);
        projects = drain_pool(projects, &mut results, RESULT_LIMIT);
        proof {
            lemma_results_of_add(taken, step);
            taken = taken + step;
        }
    }
    assert(results@.len() == taken.len()) by {
        assert(string_pair_views(results@).len() == results_of(taken).len());
    }
    if intent.wants_issue && results.len() < RESULT_LIMIT {
        let ghost step = drained(candidate_views(issues@), taken.len() as int);
        issues = drain_pool(issues, &mut results, RESULT_LIMIT);
        proof {
            lemma_results_of_add(taken, step);
            taken = taken + step;
        }
    }
    assert(results@.len() == taken.len()) by {
        assert(string_pair_views(results@).len() == results_of(taken).len());
    }
    if results.len() < RESULT_LIMIT {
        let ghost step = drained(candidate_views(projects@), taken.len() as int);
        projects = drain_pool(projects, &mut results, RESULT_LIMIT);
        proof {
            lemma_results_of_add(taken, step);
            taken = taken + step;
        }
        assert(results@.len() == taken.len()) by {
            assert(string_pair_views(results@).len() == results_of(taken).len());
        }
        let ghost step = drained(candidate_views(issues@), taken.len() as int);
        let _ = drain_pool(issues, &mut results, RESULT_LIMIT);
        proof {
            lemma_results_of_add(taken, step);
            taken = taken + step;
        }
    }
    proof {
        assert(taken =~= first_n(priority_order(intent, views), RESULT_LIMIT as int));
    }
    results
}

/// Keeps the neighbours that score above the plain threshold, in the order
/// of the index.
pub fn rank_plain(candidates: Vec<Candidate>) -> (results: Vec<(String, String)>)
    ensures
        string_pair_views(results@) == plain_results(candidate_views(candidates@)),
{
    let ghost views = candidate_views(candidates@);
    let mut results: Vec<(String, String)> = Vec::new();
    proof {
        assert(views.take(0) == Seq::<CandidateView>::empty());
        assert(string_pair_views(results@) == plain_results(views.take(0)));
    }
    for c in it: candidates
        invariant
            it.seq() == candidates@,
            views == candidate_views(candidates@),
            string_pair_views(results@) == plain_results(views.take(it.index())),
    {
        let ghost before = results@;
        proof {
            let k = it.index();
            assert(views.take(k + 1).drop_last() == views.take(k));
            assert(views.take(k + 1).last() == c@);
        }
        if score_above(c.score, PLAIN_THRESHOLD) {
            let Candidate { score: _, entity_id, text } = c;
            results.push((entity_id, text));
            proof {
                assert(string_pair_views(results@) == string_pair_views(before).push((entity_id@, text@)));
            }
        }
    }
    proof {
        assert(views.take(views.len() as int) == views);
    }
    results
}

/// What the two word searches say of a question.
pub fn intent_of(project_found: bool, issue_found: bool) -> (intent: Intent)
    ensures
        intent == (Intent { wants_project: project_found, wants_issue: issue_found }),
{
    Intent { wants_project: project_found, wants_issue: issue_found }
}

/// The intent that a question states, where both intent words are accepted as
/// patterns.
pub open spec fn stated_intent(question: Seq<char>) -> Intent {
    Intent {
        wants_project: pattern_found(PROJECT_WORD@, ascii_lowercase(question)),
        wants_issue: pattern_found(ISSUE_WORD@, ascii_lowercase(question)),
    }
}

pub open spec fn intent_words_compile() -> bool {
    pattern_compiles(PROJECT_WORD@) && pattern_compiles(ISSUE_WORD@)
}

/// Looks for the words "project" and "issue" in the question, whatever the
/// case of their ASCII letters.
pub fn classify_intent(question: &str) -> (r: Result<Intent, SearchError>)
    ensures
        r is Ok <==> intent_words_compile(),
        r matches Ok(intent) ==> intent == stated_intent(question@),
        r matches Err(e) ==> e == SearchError::Pattern,
{
    let lowered = question.to_ascii_lowercase();
    let project_found = match regex_is_match(PROJECT_WORD, lowered.as_str()) {
        Ok(found) => found,
        Err(_) => {
            return Err(SearchError::Pattern);
        },
    };
    let issue_found = match regex_is_match(ISSUE_WORD, lowered.as_str()) {
        Ok(found) => found,
        Err(_) => {
            return Err(SearchError::Pattern);
        },
    };
    Ok(intent_of(project_found, issue_found))
}

/// The hybrid search on the neighbours that the index returned for
/// `question`.
pub fn hybrid_search(question: &str, candidates: Vec<Candidate>) -> (r: Result<
    Vec<(String, String)>,
    SearchError,
>)
    ensures
        r is Ok <==> intent_words_compile(),
        r matches Ok(results) ==> string_pair_views(results@) == hybrid_results(
            stated_intent(question@),
            candidate_views(candidates@),
        ),
        r matches Err(e) ==> e == SearchError::Pattern,
{
    match classify_intent(question) {
        Ok(intent) => Ok(rank_hybrid(intent, candidates)),
        Err(e) => Err(e),
    }
}

pub open spec fn by_falling_score(pool: Seq<CandidateView>) -> bool {
    forall|i: int, j: int| 0 <= i < j < pool.len() ==> pool[i].score >= pool[j].score
}

/// A pool that takes one more candidate holds what it held and the
/// candidate, and stays ordered by falling score.
pub proof fn lemma_insert_by_score(pool: Seq<CandidateView>, c: CandidateView)
    ensures
        insert_by_score(pool, c).len() == pool.len() + 1,
        insert_by_score(pool, c).to_multiset() == pool.to_multiset().insert(c),
        forall|i: int|
            0 <= i < insert_by_score(pool, c).len() ==> #[trigger] insert_by_score(pool, c)[i] == c
                || pool.contains(insert_by_score(pool, c)[i]),
        by_falling_score(pool) ==> by_falling_score(insert_by_score(pool, c)),
    decreases pool.len(),
{
    broadcast use vstd::seq_lib::to_multiset_build;

    let out = insert_by_score(pool, c);
    if pool.len() == 0 || pool.last().score >= c.score {
        assert forall|i: int| 0 <= i < out.len() implies #[trigger] out[i] == c || pool.contains(
            out[i],
        ) by {
            if i < pool.len() {
                assert(pool[i] == out[i]);
            }
        }
    } else {
        let init = pool.drop_last();
        let inner = insert_by_score(init, c);
        lemma_insert_by_score(init, c);
        assert(pool == init.push(pool.last()));
        assert(out.to_multiset() =~= pool.to_multiset().insert(c));
        assert forall|i: int| 0 <= i < out.len() implies #[trigger] out[i] == c || pool.contains(
            out[i],
        ) by {
            if i < inner.len() {
                assert(out[i] == inner[i]);
                if inner[i] != c {
                    let k = choose|k: int| 0 <= k < init.len() && init[k] == inner[i];
                    assert(pool[k] == out[i]);
                }
            } else {
                assert(pool[pool.len() - 1] == out[i]);
            }
        }
        if by_falling_score(pool) {
            assert(by_falling_score(init)) by {
                assert forall|i: int, j: int| 0 <= i < j < init.len() implies init[i].score
                    >= init[j].score by {
                    assert(pool[i].score >= pool[j].score);
                }
            }
            assert forall|i: int, j: int| 0 <= i < j < out.len() implies out[i].score
                >= out[j].score by {
                if j < inner.len() {
                    assert(inner[i].score >= inner[j].score);
                } else {
                    assert(out[i] == inner[i]);
                    if inner[i] != c {
                        let k = choose|k: int| 0 <= k < init.len() && init[k] == inner[i];
                        assert(pool[k].score >= pool[pool.len() - 1].score);
                    }
                }
            }
        }
    }
}

/// A pool is ordered by falling score, and each of its entries is a
/// candidate of the pool's shape that scores above the threshold.
pub proof fn lemma_pool_of(candidates: Seq<CandidateView>, issues: bool)
    ensures
        by_falling_score(pool_of(candidates, issues)),
        pool_of(candidates, issues).len() <= candidates.len(),
        forall|k: int|
            0 <= k < pool_of(candidates, issues).len() ==> in_pool(
                #[trigger] pool_of(candidates, issues)[k],
                issues,
            ) && candidates.contains(pool_of(candidates, issues)[k]),
    decreases candidates.len(),
{
    let pool = pool_of(candidates, issues);
    if candidates.len() > 0 {
        let init = candidates.drop_last();
        let inner = pool_of(init, issues);
        lemma_pool_of(init, issues);
        if in_pool(candidates.last(), issues) {
            lemma_insert_by_score(inner, candidates.last());
        }
        assert forall|k: int| 0 <= k < pool.len() implies in_pool(#[trigger] pool[k], issues)
            && candidates.contains(pool[k]) by {
            if in_pool(candidates.last(), issues) && pool[k] == candidates.last() {
                assert(candidates[candidates.len() - 1] == pool[k]);
            } else {
                assert(inner.contains(pool[k]));
                let m = choose|m: int| 0 <= m < inner.len() && inner[m] == pool[k];
                assert(init.contains(inner[m]));
                let n = choose|n: int| 0 <= n < init.len() && init[n] == inner[m];
                assert(candidates[n] == pool[k]);
            }
        }
    }
}

/// Each candidate of a pool's shape that scores above the threshold is in
/// the pool, as often as it was among the candidates.
pub proof fn lemma_pool_complete(candidates: Seq<CandidateView>, issues: bool)
    ensures
        pool_of(candidates, issues).to_multiset() == candidates.filter(
            |c: CandidateView| in_pool(c, issues),
        ).to_multiset(),
    decreases candidates.len(),
{
    broadcast use vstd::seq_lib::to_multiset_build;

    let pred = |c: CandidateView| in_pool(c, issues);
    if candidates.len() == 0 {
        assert(candidates.filter(pred) == Seq::<CandidateView>::empty());
    } else {
        let init = candidates.drop_last();
        lemma_pool_complete(init, issues);
        assert(candidates == init.push(candidates.last()));
        init.lemma_filter_push(candidates.last(), pred);
        if in_pool(candidates.last(), issues) {
            lemma_insert_by_score(pool_of(init, issues), candidates.last());
        }
    }
}

/// Whether `result` is what a candidate that scores above `threshold` gives.
pub open spec fn stems_from(
    result: (Seq<char>, Seq<char>),
    candidates: Seq<CandidateView>,
    threshold: u32,
) -> bool {
    exists|i: int|
        0 <= i < candidates.len() && scores_above((#[trigger] candidates[i]).score, threshold)
            && result == result_of(candidates[i])
}

/// A hybrid search hands out at most five results, and each of them is a
/// candidate that scores above the threshold.
pub proof fn lemma_hybrid_results_bounded(intent: Intent, candidates: Seq<CandidateView>)
    ensures
        hybrid_results(intent, candidates).len() <= RESULT_LIMIT,
        forall|k: int|
            0 <= k < hybrid_results(intent, candidates).len() ==> stems_from(
                #[trigger] hybrid_results(intent, candidates)[k],
                candidates,
                HYBRID_THRESHOLD,
            ),
{
    let order = priority_order(intent, candidates);
    let out = hybrid_results(intent, candidates);
    lemma_pool_of(candidates, true);
    lemma_pool_of(candidates, false);
    assert forall|k: int| 0 <= k < out.len() implies stems_from(
        #[trigger] out[k],
        candidates,
        HYBRID_THRESHOLD,
    ) by {
        let c = order[k];
        assert(out[k] == result_of(c));
        let issues_first = intent.wants_issue && !intent.wants_project;
        let first = pool_of(candidates, issues_first);
        let second = pool_of(candidates, !issues_first);
        assert(order == first + second);
        if k < first.len() {
            assert(c == first[k]);
            assert(candidates.contains(first[k]));
        } else {
            assert(c == second[k - first.len()]);
            assert(candidates.contains(second[k - first.len()]));
        }
        let i = choose|i: int| 0 <= i < candidates.len() && candidates[i] == c;
        assert(scores_above(candidates[i].score, HYBRID_THRESHOLD));
    }
}

/// A plain search hands out only candidates that score above its threshold.
pub proof fn lemma_plain_results_bounded(candidates: Seq<CandidateView>)
    ensures
        plain_results(candidates).len() <= candidates.len(),
        forall|k: int|
            0 <= k < plain_results(candidates).len() ==> stems_from(
                #[trigger] plain_results(candidates)[k],
                candidates,
                PLAIN_THRESHOLD,
            ),
    decreases candidates.len(),
{
    let out = plain_results(candidates);
    if candidates.len() > 0 {
        let init = candidates.drop_last();
        let inner = plain_results(init);
        lemma_plain_results_bounded(init);
        assert forall|k: int| 0 <= k < out.len() implies stems_from(
            #[trigger] out[k],
            candidates,
            PLAIN_THRESHOLD,
        ) by {
            if k < inner.len() {
                assert(out[k] == inner[k]);
                assert(stems_from(inner[k], init, PLAIN_THRESHOLD));
                let i = choose|i: int|
                    0 <= i < init.len() && scores_above((#[trigger] init[i]).score, PLAIN_THRESHOLD)
                        && inner[k] == result_of(init[i]);
                assert(candidates[i] == init[i]);
            } else {
                assert(out[k] == result_of(candidates[candidates.len() - 1]));
            }
        }
    }
}

/// Where the question asks for issues and not for projects, and at least
/// five issues score above the threshold, the results are the five best
/// issues.
pub proof fn lemma_issues_lead(intent: Intent, candidates: Seq<CandidateView>)
    requires
        intent.wants_issue,
        !intent.wants_project,
        pool_of(candidates, true).len() >= RESULT_LIMIT,
    ensures
        hybrid_results(intent, candidates) == results_of(
            pool_of(candidates, true).take(RESULT_LIMIT as int),
        ),
{
    let issues = pool_of(candidates, true);
    let projects = pool_of(candidates, false);
    assert((issues + projects).take(RESULT_LIMIT as int) == issues.take(RESULT_LIMIT as int));
}

/// Where the question asks for projects and at least five projects score
/// above the threshold, the results are the five best projects.
pub proof fn lemma_projects_lead(intent: Intent, candidates: Seq<CandidateView>)
    requires
        intent.wants_project,
        pool_of(candidates, false).len() >= RESULT_LIMIT,
    ensures
        hybrid_results(intent, candidates) == results_of(
            pool_of(candidates, false).take(RESULT_LIMIT as int),
        ),
{
    let issues = pool_of(candidates, true);
    let projects = pool_of(candidates, false);
    assert((projects + issues).take(RESULT_LIMIT as int) == projects.take(RESULT_LIMIT as int));
}

/// Where the question states no intent and at most five projects score above
/// the threshold, the results are all of these projects and then the best
/// issues, as far as five results reach.
pub proof fn lemma_fallback(intent: Intent, candidates: Seq<CandidateView>)
    requires
        !intent.wants_project,
        !intent.wants_issue,
        pool_of(candidates, false).len() <= RESULT_LIMIT,
    ensures
        hybrid_results(intent, candidates) == results_of(pool_of(candidates, false)) + results_of(
            first_n(pool_of(candidates, true), RESULT_LIMIT - pool_of(candidates, false).len()),
        ),
{
    let issues = pool_of(candidates, true);
    let projects = pool_of(candidates, false);
    let room = RESULT_LIMIT - projects.len();
    lemma_results_of_add(projects, first_n(issues, room));
    assert(first_n(projects + issues, RESULT_LIMIT as int) == projects + first_n(issues, room));
}

/// The collection that is searched and filled where none is named.
pub const DEFAULT_COLLECTION: &'static str = "gosim_search";

/// The name under which a point holds the id of its entity.
pub const ID_FIELD: &'static str = "issue_or_project_id";

/// The name under which a point holds the text that was embedded.
pub const TEXT_FIELD: &'static str = "text";

/// How often an embedding is asked for again before an upload gives up.
pub const UPLOAD_RETRIES: u8 = 2;

/// How often an embedding is asked for again before a search gives up.
pub const SEARCH_RETRIES: u8 = 3;

/// The size of the vectors of a collection.
pub const VECTOR_SIZE: u64 = 1536;

/// A point for the index, but for its vector, which the embedding gives.
#[derive(Clone, Debug, PartialEq, Eq)]
pub struct PointPlan {
    pub id: u64,
    pub entity_id: String,
    pub text: String,
}

/// Why an upload gave up.
#[derive(Clone, Debug, PartialEq, Eq)]
pub enum UploadError {
    /// The index did not say how many points it holds.
    NoCount(String),
    /// The generation service gave no embedding.
    NoEmbedding(String),
    /// The index did not take the point.
    NoUpsert(String),
}

pub open spec fn count_failure(cause: Seq<char>) -> Seq<char> {
    "Cannot get collection, can not init points_count: "@ + cause
}

pub open spec fn embedding_failure(cause: Seq<char>) -> Seq<char> {
    "OpenAI returned an error: "@ + cause
}

pub open spec fn upsert_failure(cause: Seq<char>) -> Seq<char> {
    "Cannot upsert into database! "@ + cause
}

/// What is said of a collection: how many points it holds, or why that is
/// not known.
pub open spec fn collection_report(name: Seq<char>, count: Result<u64, String>) -> Seq<char> {
    match count {
        Ok(n) => "The collection now has "@ + decimal(n as nat) + " records in total."@,
        Err(cause) => "Cannot get collection: "@ + name + " Error: "@ + cause@,
    }
}

/// Plans the point for an entity: its id is the number of points that the
/// index holds.
pub fn plan_point(count: Result<u64, String>, entity_id: &str, content: &str) -> (r: Result<
    PointPlan,
    UploadError,
>)
    ensures
        match (count, r) {
            (Ok(n), Ok(plan)) => plan.id == n && plan.entity_id@ == entity_id@ && plan.text@
                == content@,
            (Err(cause), Err(UploadError::NoCount(message))) => message@ == count_failure(cause@),
            _ => false,
        },
{
    match count {
        Ok(n) => Ok(PointPlan { id: n, entity_id: entity_id.to_owned(), text: content.to_owned() }),
        Err(cause) => {
            let mut message = "Cannot get collection, can not init points_count: ".to_owned();
            message.append(cause.as_str());
            Err(UploadError::NoCount(message))
        },
    }
}

/// What an upload comes to once the embedding was asked for: it succeeds
/// only where the embedding came and the index took the point. A failure of
/// the embedding comes first, since without an embedding no point is
/// written; a failure to write the point is handed on with its cause, so that
/// no summary is marked as indexed without its point.
pub fn upload_outcome(embedding_failed: Option<String>, upsert_failed: Option<String>) -> (r:
    Result<(), UploadError>)
    ensures
        r is Ok <==> embedding_failed is None && upsert_failed is None,
        match (embedding_failed, upsert_failed, r) {
            (None, None, Ok(_)) => true,
            (Some(cause), _, Err(UploadError::NoEmbedding(message))) => message@
                == embedding_failure(cause@),
            (None, Some(cause), Err(UploadError::NoUpsert(message))) => message@ == upsert_failure(
                cause@,
            ),
            _ => false,
        },
{
    match embedding_failed {
        Some(cause) => {
            let mut message = "OpenAI returned an error: ".to_owned();
            message.append(cause.as_str());
            Err(UploadError::NoEmbedding(message))
        },
        None => match upsert_failed {
            Some(cause) => {
                let mut message = "Cannot upsert into database! ".to_owned();
                message.append(cause.as_str());
                Err(UploadError::NoUpsert(message))
            },
            None => Ok(()),
        },
    }
}

/// Whether the generation service gave an embedding for the question:
/// `embeddings` is how many it gave, or `None` where it failed.
pub fn question_embedding(embeddings: Option<usize>) -> (r: Result<(), SearchError>)
    ensures
        r is Ok <==> (embeddings matches Some(n) && n > 0),
        r matches Err(e) ==> e == SearchError::NoEmbedding,
{
    match embeddings {
        Some(n) => if n > 0 {
            Ok(())
        } else {
            Err(SearchError::NoEmbedding)
        },
        None => Err(SearchError::NoEmbedding),
    }
}

/// Says of a collection how many points it holds, or why that is not known.
pub fn report_collection(name: &str, count: &Result<u64, String>) -> (out: String)
    ensures
        out@ == collection_report(name@, *count),
{
    match count {
        Ok(n) => {
            let mut out = "The collection now has ".to_owned();
            let digits = decimal_text(*n);
            out.append(digits.as_str());
            out.append(" records in total.");
            out
        },
        Err(cause) => {
            let mut out = "Cannot get collection: ".to_owned();
            out.append(name);
            out.append(" Error: ");
            out.append(cause.as_str());
            out
        },
    }
}

} // verus!
