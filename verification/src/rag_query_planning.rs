//! Bounded query planning for grounded Ask: the exact question is always
//! kept, and at most three distinct, bounded rewrites from the planner model
//! are added.

use vstd::prelude::*;
use vstd::string::*;

use crate::text::{
    is_blank, lemma_trimmed_idempotent, lowercase, same_text, texts, to_lowercase, trim_str, trimmed,
    utf8_len,
};

verus! {

/// Most rewrites a plan may add to the exact question.
pub const MAX_PLANNED_QUERIES: usize = 3;

/// Most bytes of one trimmed rewrite.
pub const MAX_QUERY_BYTES: usize = 8192;

/// Most bytes of a planner reply, and of the question with its rewrites.
pub const MAX_PLAN_BYTES: usize = 16384;

/// Retrieval strategy requested for one Ask turn.
#[derive(Debug, Clone, Copy, PartialEq, Eq, Structural)]
pub enum RagRetrievalStrategy {
    /// Retrieve only with the exact user question.
    SingleQuery,
    /// Plan bounded rewrites and fuse their local retrieval results.
    MultiQuery,
}

impl Default for RagRetrievalStrategy {
    fn default() -> (r: Self)
        ensures
            r == RagRetrievalStrategy::SingleQuery,
    {
        RagRetrievalStrategy::SingleQuery
    }
}

/// Sanitized reason why an opted-in multi-query request used the control path.
#[derive(Debug, Clone, Copy, PartialEq, Eq, Structural)]
pub enum RagPlanningFallbackReason {
    /// Planner returned no queries.
    Empty,
    /// Planner returned only the unchanged question.
    DuplicateOnly,
    /// Planner explicitly declined the request.
    Refused,
    /// Planner output violated the bounded schema.
    Malformed,
    /// Planner exceeded the profile timeout.
    TimedOut,
    /// The configured planning model was unavailable.
    Unavailable,
    /// Planning failed for another sanitized reason.
    Failed,
}

/// Validated query plan used for retrieval and confirmation fingerprinting.
#[derive(Debug, Clone, PartialEq, Eq)]
pub struct RagQueryPlan {
    /// Strategy the caller asked for.
    pub requested_strategy: RagRetrievalStrategy,
    /// Strategy that the plan applies.
    pub applied_strategy: RagRetrievalStrategy,
    /// The exact question, followed by any rewrites.
    pub queries: Vec<String>,
    /// Why an opted-in request used the single-query path.
    pub fallback_reason: Option<RagPlanningFallbackReason>,
}

/// A plan as plain values: requested and applied strategy, query texts and
/// fallback reason.
pub type PlanView = (
    RagRetrievalStrategy,
    RagRetrievalStrategy,
    Seq<Seq<char>>,
    Option<RagPlanningFallbackReason>,
);

impl View for RagQueryPlan {
    type V = PlanView;

    open spec fn view(&self) -> PlanView {
        (self.requested_strategy, self.applied_strategy, texts(self.queries@), self.fallback_reason)
    }
}

/// The single-query plan of a question.
pub open spec fn single_plan(question: Seq<char>, requested: RagRetrievalStrategy) -> PlanView {
    (requested, RagRetrievalStrategy::SingleQuery, seq![question], None)
}

/// The control path of an opted-in request, with the reason it was taken.
pub open spec fn fallback_plan(question: Seq<char>, reason: RagPlanningFallbackReason) -> PlanView {
    (
        RagRetrievalStrategy::MultiQuery,
        RagRetrievalStrategy::SingleQuery,
        seq![question],
        Some(reason),
    )
}

impl RagQueryPlan {
    /// Retrieves with the exact question only.
    pub fn single(question: &str, requested_strategy: RagRetrievalStrategy) -> (r: Self)
        ensures
            r@ == single_plan(question@, requested_strategy),
    {
        let mut queries: Vec<String> = Vec::new();
        queries.push(question.to_owned());
        let r = Self {
            requested_strategy,
            applied_strategy: RagRetrievalStrategy::SingleQuery,
            queries,
            fallback_reason: None,
        };
        assert(texts(r.queries@) =~= seq![question@]);
        r
    }

    /// The single-query control path of an opted-in multi-query request.
    pub fn fallback(question: &str, reason: RagPlanningFallbackReason) -> (r: Self)
        ensures
            r@ == fallback_plan(question@, reason),
    {
        let mut r = Self::single(question, RagRetrievalStrategy::MultiQuery);
        r.fallback_reason = Some(reason);
        r
    }
}

/// The planner's reply after JSON decoding: `queries` and `refused`, each
/// defaulting to empty or false when absent.
#[derive(Debug, Clone, PartialEq, Eq)]
pub struct PlannerResponse {
    /// Proposed retrieval queries, in order.
    pub queries: Vec<String>,
    /// Whether the planner declined the request.
    pub refused: bool,
}

/// Scans the first `n` proposed queries: `None` when one of them trims to
/// nothing or to more than `MAX_QUERY_BYTES` bytes, else the trimmed queries
/// whose key is new (neither the question's key nor an earlier accepted
/// key), with their keys, in order.
pub open spec fn rewrite_scan(
    question_key: Seq<char>,
    queries: Seq<Seq<char>>,
    keys: Seq<Seq<char>>,
    n: int,
) -> Option<(Seq<Seq<char>>, Seq<Seq<char>>)>
    decreases n,
{
    if n <= 0 {
        Some((seq![], seq![]))
    } else {
        match rewrite_scan(question_key, queries, keys, n - 1) {
            None => None,
            Some((rewrites, seen)) => {
                let q = trimmed(queries[n - 1]);
                let k = keys[n - 1];
                if q.len() == 0 || utf8_len(q) > MAX_QUERY_BYTES {
                    None
                } else if k == question_key || seen.contains(k) {
                    Some((rewrites, seen))
                } else {
                    Some((rewrites.push(q), seen.push(k)))
                }
            },
        }
    }
}

/// Total UTF-8 bytes of a list of texts.
pub open spec fn total_utf8_len(s: Seq<Seq<char>>) -> nat
    decreases s.len(),
{
    if s.len() == 0 {
        0
    } else {
        total_utf8_len(s.drop_last()) + utf8_len(s.last())
    }
}

/// The plan for proposed queries whose dedup keys are `keys` (one per query)
/// and whose question has key `question_key`.
pub open spec fn rewrite_plan(
    question: Seq<char>,
    question_key: Seq<char>,
    queries: Seq<Seq<char>>,
    keys: Seq<Seq<char>>,
) -> PlanView {
    if queries.len() == 0 {
        fallback_plan(question, RagPlanningFallbackReason::Empty)
    } else {
        match rewrite_scan(question_key, queries, keys, queries.len() as int) {
            None => fallback_plan(question, RagPlanningFallbackReason::Malformed),
            Some((rewrites, _)) => if rewrites.len() == 0 {
                fallback_plan(question, RagPlanningFallbackReason::DuplicateOnly)
            } else if rewrites.len() > MAX_PLANNED_QUERIES || utf8_len(question) + total_utf8_len(
                rewrites,
            ) > MAX_PLAN_BYTES {
                fallback_plan(question, RagPlanningFallbackReason::Malformed)
            } else {
                (
                    RagRetrievalStrategy::MultiQuery,
                    RagRetrievalStrategy::MultiQuery,
                    seq![question] + rewrites,
                    None,
                )
            },
        }
    }
}

/// The dedup key of a text: its trimmed, lowercased form.
pub open spec fn query_key(s: Seq<char>) -> Seq<char> {
    lowercase(trimmed(s))
}

/// The plan for a planner reply `response` whose JSON decoding is `decoded`
/// (`None` when it is not a reply object).
pub open spec fn planner_plan(
    question: Seq<char>,
    response: Seq<char>,
    decoded: Option<(Seq<Seq<char>>, bool)>,
) -> PlanView {
    if is_blank(response) {
        fallback_plan(question, RagPlanningFallbackReason::Empty)
    } else if utf8_len(response) > MAX_PLAN_BYTES {
        fallback_plan(question, RagPlanningFallbackReason::Malformed)
    } else {
        match decoded {
            None => fallback_plan(question, RagPlanningFallbackReason::Malformed),
            Some((queries, refused)) => if refused {
                fallback_plan(question, RagPlanningFallbackReason::Refused)
            } else {
                rewrite_plan(
                    question,
                    query_key(question),
                    queries,
                    queries.map_values(|q: Seq<char>| query_key(q)),
                )
            },
        }
    }
}

/// Whether `key` is one of `seen`.
fn contains_text(seen: &Vec<String>, key: &str) -> (r: bool)
    ensures
        r == texts(seen@).contains(key@),
{
    let mut i: usize = 0;
    while i < seen.len()
        invariant
            i <= seen.len(),
            forall|j: int| 0 <= j < i ==> seen@[j]@ != key@,
        decreases seen.len() - i,
    {
        if same_text(seen[i].as_str(), key) {
            assert(texts(seen@)[i as int] == key@);
            return true;
        }
        i = i + 1;
    }
    proof {
        if texts(seen@).contains(key@) {
            let j = choose|j: int| 0 <= j < texts(seen@).len() && texts(seen@)[j] == key@;
            assert(seen@[j]@ == key@);
        }
    }
    false
}

/// Builds the plan for the planner's proposed queries, given the dedup key
/// of the question and of each proposed query. The exact question always
/// comes first; a query that trims to nothing or to more than
/// `MAX_QUERY_BYTES` bytes makes the reply malformed; a query whose key was
/// already seen is dropped; no rewrite at all is `DuplicateOnly`; more than
/// three rewrites, or more than `MAX_PLAN_BYTES` bytes in all, is malformed.
pub fn plan_rewrites(
    question: &str,
    question_key: &str,
    queries: &Vec<String>,
    keys: &Vec<String>,
) -> (r: RagQueryPlan)
    requires
        keys.len() == queries.len(),
    ensures
        r@ == rewrite_plan(question@, question_key@, texts(queries@), texts(keys@)),
{
    let ghost qs = texts(queries@);
    let ghost ks = texts(keys@);
    if queries.len() == 0 {
        return RagQueryPlan::fallback(question, RagPlanningFallbackReason::Empty);
    }
    let mut rewrites: Vec<String> = Vec::new();
    let mut seen: Vec<String> = Vec::new();
    let mut i: usize = 0;
    while i < queries.len()
        invariant
            i <= queries.len(),
            keys.len() == queries.len(),
            qs == texts(queries@),
            ks == texts(keys@),
            rewrite_scan(question_key@, qs, ks, i as int) == Some((texts(rewrites@), texts(seen@))),
            rewrites.len() <= i,
            forall|j: int| 0 <= j < rewrites.len() ==> utf8_len(#[trigger] rewrites@[j]@)
                <= MAX_QUERY_BYTES,
        decreases queries.len() - i,
    {
        let query = trim_str(queries[i].as_str());
        if query.unicode_len() == 0 || query.as_bytes().len() > MAX_QUERY_BYTES {
            proof {
                assert(qs[i as int] == queries@[i as int]@);
                lemma_scan_none_stays(question_key@, qs, ks, i as int + 1, queries.len() as int);
            }
            return RagQueryPlan::fallback(question, RagPlanningFallbackReason::Malformed);
        }
        let key = keys[i].as_str();
        let ghost before_rw = texts(rewrites@);
        let ghost before_seen = texts(seen@);
        proof {
            assert(qs[i as int] == queries@[i as int]@);
            assert(ks[i as int] == keys@[i as int]@);
            assert(query@ == trimmed(qs[i as int]));
            assert(utf8_len(query@) <= MAX_QUERY_BYTES);
            assert(query@.len() != 0);
        }
        if !same_text(key, question_key) && !contains_text(&seen, key) {
            rewrites.push(query.to_owned());
            seen.push(key.to_owned());
            proof {
                assert(texts(rewrites@) =~= before_rw.push(trimmed(qs[i as int])));
                assert(texts(seen@) =~= before_seen.push(ks[i as int]));
            }
        }
        i = i + 1;
    }
    if rewrites.len() == 0 {
        return RagQueryPlan::fallback(question, RagPlanningFallbackReason::DuplicateOnly);
    }
    if rewrites.len() > MAX_PLANNED_QUERIES {
        return RagQueryPlan::fallback(question, RagPlanningFallbackReason::Malformed);
    }
    let mut total: usize = 0;
    let mut j: usize = 0;
    while j < rewrites.len()
        invariant
            j <= rewrites.len(),
            rewrites.len() <= MAX_PLANNED_QUERIES,
            forall|k: int| 0 <= k < rewrites.len() ==> utf8_len(#[trigger] rewrites@[k]@)
                <= MAX_QUERY_BYTES,
            total == total_utf8_len(texts(rewrites@).take(j as int)),
            total <= j * MAX_QUERY_BYTES,
        decreases rewrites.len() - j,
    {
        proof {
            assert(texts(rewrites@).take(j as int + 1).drop_last() =~= texts(rewrites@).take(
                j as int,
            ));
        }
        total = total + rewrites[j].as_str().as_bytes().len();
        j = j + 1;
    }
    assert(texts(rewrites@).take(rewrites.len() as int) =~= texts(rewrites@));
    let question_bytes = question.as_bytes().len();
    if question_bytes > MAX_PLAN_BYTES || total > MAX_PLAN_BYTES - question_bytes {
        return RagQueryPlan::fallback(question, RagPlanningFallbackReason::Malformed);
    }
    let mut all: Vec<String> = Vec::new();
    all.push(question.to_owned());
    let ghost first = texts(all@);
    all.append(&mut rewrites);
    let r = RagQueryPlan {
        requested_strategy: RagRetrievalStrategy::MultiQuery,
        applied_strategy: RagRetrievalStrategy::MultiQuery,
        queries: all,
        fallback_reason: None,
    };
    r
}

/// The decoded reply as plain values.
pub open spec fn decoded_view(decoded: Option<PlannerResponse>) -> Option<(Seq<Seq<char>>, bool)> {
    match decoded {
        Some(d) => Some((texts(d.queries@), d.refused)),
        None => None,
    }
}

/// Builds the plan for the planner model's raw reply `response`, whose JSON
/// decoding into a reply object is `decoded` (`None` when the reply is not
/// such an object). A blank reply is `Empty`, a reply over `MAX_PLAN_BYTES`
/// bytes or one that does not decode is `Malformed`, a refusal is
/// `Refused`; otherwise the queries are planned as `plan_rewrites` says,
/// keyed by their trimmed lowercase form.
pub fn parse_planner_response(question: &str, response: &str, decoded: Option<PlannerResponse>) -> (r:
    RagQueryPlan)
    ensures
        r@ == planner_plan(question@, response@, decoded_view(decoded)),
{
    if crate::text::str_is_blank(response) {
        return RagQueryPlan::fallback(question, RagPlanningFallbackReason::Empty);
    }
    if response.as_bytes().len() > MAX_PLAN_BYTES {
        return RagQueryPlan::fallback(question, RagPlanningFallbackReason::Malformed);
    }
    let decoded = match decoded {
        Some(d) => d,
        None => {
            return RagQueryPlan::fallback(question, RagPlanningFallbackReason::Malformed);
        },
    };
    if decoded.refused {
        return RagQueryPlan::fallback(question, RagPlanningFallbackReason::Refused);
    }
    let question_key = to_lowercase(trim_str(question));
    let mut keys: Vec<String> = Vec::new();
    let mut i: usize = 0;
    while i < decoded.queries.len()
        invariant
            i <= decoded.queries.len(),
            keys.len() == i,
            forall|j: int| 0 <= j < i ==> (#[trigger] keys@[j])@ == query_key(
                decoded.queries@[j]@,
            ),
        decreases decoded.queries.len() - i,
    {
        keys.push(to_lowercase(trim_str(decoded.queries[i].as_str())));
        i = i + 1;
    }
    proof {
        let qs = texts(decoded.queries@);
        assert(texts(keys@) =~= qs.map_values(|q: Seq<char>| query_key(q)));
    }
    plan_rewrites(question, question_key.as_str(), &decoded.queries, &keys)
}

/// Once the scan fails it stays failed.
proof fn lemma_scan_none_stays(
    question_key: Seq<char>,
    queries: Seq<Seq<char>>,
    keys: Seq<Seq<char>>,
    m: int,
    n: int,
)
    requires
        0 <= m <= n,
        rewrite_scan(question_key, queries, keys, m) is None,
    ensures
        rewrite_scan(question_key, queries, keys, n) is None,
    decreases n - m,
{
    if m < n {
        lemma_scan_none_stays(question_key, queries, keys, m + 1, n);
    }
}


/// What a scan accepts: one key per rewrite, pairwise distinct keys, none
/// equal to the question's key, and every rewrite non-empty and bounded.
pub proof fn lemma_scan_accepts_distinct(
    question_key: Seq<char>,
    queries: Seq<Seq<char>>,
    keys: Seq<Seq<char>>,
    n: int,
)
    requires
        rewrite_scan(question_key, queries, keys, n) is Some,
    ensures
        ({
            let (rewrites, seen) = rewrite_scan(question_key, queries, keys, n).unwrap();
            &&& rewrites.len() == seen.len()
            &&& !seen.contains(question_key)
            &&& forall|a: int, b: int| 0 <= a < b < seen.len() ==> seen[a] != seen[b]
            &&& forall|a: int| 0 <= a < rewrites.len() ==> (#[trigger] rewrites[a]).len() > 0
                && utf8_len(rewrites[a]) <= MAX_QUERY_BYTES
        }),
    decreases n,
{
    if n > 0 {
        lemma_scan_accepts_distinct(question_key, queries, keys, n - 1);
        let (rw0, seen0) = rewrite_scan(question_key, queries, keys, n - 1).unwrap();
        let (rw, seen) = rewrite_scan(question_key, queries, keys, n).unwrap();
        if seen.len() > seen0.len() {
            assert(seen == seen0.push(keys[n - 1]));
            assert(rw == rw0.push(trimmed(queries[n - 1])));
            assert forall|a: int, b: int| 0 <= a < b < seen.len() implies seen[a] != seen[b] by {
                if b == seen.len() - 1 {
                    assert(seen0.contains(seen0[a]));
                }
            }
            if seen.contains(question_key) {
                let j = choose|j: int| 0 <= j < seen.len() && seen[j] == question_key;
                if j < seen0.len() {
                    assert(seen0.contains(question_key));
                }
            }
        }
    }
}

/// Every plan built from a planner reply starts with the exact question and
/// holds at most three rewrites after it; a fallback holds the exact question
/// alone and applies the single-query strategy; a plan without fallback
/// applies the multi-query strategy, and its rewrites are non-empty, bounded,
/// and have pairwise distinct keys that differ from the question's.
pub proof fn law_planner_keeps_question_first(
    question: Seq<char>,
    response: Seq<char>,
    decoded: Option<(Seq<Seq<char>>, bool)>,
)
    ensures
        ({
            let p = planner_plan(question, response, decoded);
            &&& 1 <= p.2.len() <= 1 + MAX_PLANNED_QUERIES
            &&& p.2[0] == question
            &&& p.0 == RagRetrievalStrategy::MultiQuery
            &&& p.3 is Some ==> p.1 == RagRetrievalStrategy::SingleQuery && p.2 == seq![question]
            &&& p.3 is None ==> {
                &&& p.1 == RagRetrievalStrategy::MultiQuery
                &&& forall|a: int| 1 <= a < p.2.len() ==> (#[trigger] p.2[a]).len() > 0 && utf8_len(
                    p.2[a],
                ) <= MAX_QUERY_BYTES
                &&& forall|a: int, b: int|
                    1 <= a < b < p.2.len() ==> query_key(#[trigger] p.2[a]) != query_key(
                        #[trigger] p.2[b],
                    )
                &&& forall|a: int| 1 <= a < p.2.len() ==> query_key(#[trigger] p.2[a]) != query_key(
                    question,
                )
            }
        }),
{
    if !is_blank(response) && utf8_len(response) <= MAX_PLAN_BYTES && decoded is Some && !decoded.unwrap().1 {
        let queries = decoded.unwrap().0;
        let keys = queries.map_values(|q: Seq<char>| query_key(q));
        let qk = query_key(question);
        if queries.len() > 0 && rewrite_scan(qk, queries, keys, queries.len() as int) is Some {
            lemma_scan_accepts_distinct(qk, queries, keys, queries.len() as int);
            lemma_scan_keys(qk, queries, keys, queries.len() as int);
        }
    }
}

/// With keys computed from the queries, each accepted key is the key of its
/// rewrite.
proof fn lemma_scan_keys(question_key: Seq<char>, queries: Seq<Seq<char>>, keys: Seq<Seq<char>>, n: int)
    requires
        rewrite_scan(question_key, queries, keys, n) is Some,
        n <= queries.len(),
        keys == queries.map_values(|q: Seq<char>| query_key(q)),
    ensures
        ({
            let (rewrites, seen) = rewrite_scan(question_key, queries, keys, n).unwrap();
            rewrites.len() == seen.len() && forall|a: int|
                0 <= a < seen.len() ==> seen[a] == query_key(#[trigger] rewrites[a])
        }),
    decreases n,
{
    if n > 0 {
        lemma_scan_keys(question_key, queries, keys, n - 1);
        lemma_trimmed_idempotent(queries[n - 1]);
        let (rw0, seen0) = rewrite_scan(question_key, queries, keys, n - 1).unwrap();
        let (rw, seen) = rewrite_scan(question_key, queries, keys, n).unwrap();
        if seen.len() > seen0.len() {
            assert(seen == seen0.push(keys[n - 1]));
            assert(rw == rw0.push(trimmed(queries[n - 1])));
        }
    }
}

} // verus!
