//! Assignment resolution: a free-text query against the ungraded candidates.
//!
//! Candidates are ranked by due date, most recent first, ties keeping scrape
//! order (a stable ordering). Most-recent mode returns the single first
//! candidate of that ordering; fuzzy mode indexes the candidates' names in a
//! text-similarity engine under their rank positions, so that equally-similar
//! names come back most-recent-first, and maps the engine's ranked positions
//! back to indices into the caller's sequence.

use vstd::prelude::*;
use crate::assignment::Assignment;
use crate::errors::EngineError;
use crate::text::remove_whitespace;
use simsearch::SimSearch;

verus! {

/// How a query picks among candidates.
#[derive(Clone, Copy, Debug, PartialEq, Eq)]
pub enum ResolveMode {
    /// Ignore the query; take the most recently assigned candidate.
    MostRecent,
    /// Rank candidates by name similarity to the query.
    Fuzzy,
}

// ---------------------------------------------------------------------------
// The trusted view of the text-similarity engine.
// ---------------------------------------------------------------------------

#[verifier::external_type_specification]
#[verifier::external_body]
#[verifier::reject_recursive_types(Id)]
pub struct ExSimSearch<Id>(SimSearch<Id>) where Id: Eq + PartialEq + Clone + std::hash::Hash + Ord;

/// What the engine has indexed: each id maps to the content it was inserted
/// under. The value component is a history model: the engine itself stores
/// content tokenized, so two contents that tokenize alike leave equal engine
/// states under different `sim_entries` values. Nothing here reads the
/// values; the contracts use only the domain.
pub uninterp spec fn sim_entries(engine: SimSearch<usize>) -> Map<usize, Seq<char>>;

/// Relies on `simsearch::SimSearch::new`: a fresh engine has indexed nothing.
#[verifier::external_body]
fn sim_new() -> (r: SimSearch<usize>)
    ensures
        sim_entries(r).dom() == Set::<usize>::empty(),
{
    SimSearch::new()
}

/// Relies on `simsearch::SimSearch::insert`: indexes `content` under `id`,
/// replacing whatever `id` was indexed under before.
#[verifier::external_body]
fn sim_insert(engine: &mut SimSearch<usize>, id: usize, content: &str)
    ensures
        sim_entries(*final(engine)) == sim_entries(*old(engine)).insert(id, content@),
{
    engine.insert(id, content)
}

/// Relies on `simsearch::SimSearch::search`: returns ids ranked by descending
/// similarity of their indexed content to `pattern` (ties broken by ascending
/// id), keeping only entries that score above the engine's similarity
/// threshold. Its source shows that every returned id was indexed and that no
/// id appears twice; the scores themselves are internal to the engine, so
/// nothing more is assumed of which ids clear the threshold or of their order.
#[verifier::external_body]
fn sim_search(engine: &SimSearch<usize>, pattern: &str) -> (r: Vec<usize>)
    ensures
        forall|k: int| 0 <= k < r@.len() ==> sim_entries(*engine).dom().contains(#[trigger] r@[k]),
        forall|k1: int, k2: int| 0 <= k1 < k2 < r@.len() ==> r@[k1] != r@[k2],
{
    engine.search(pattern)
}

// ---------------------------------------------------------------------------
// The due-date-descending, scrape-order-stable ranking.
// ---------------------------------------------------------------------------

/// Candidate `a` ranks strictly before candidate `b`: a later due date, or the
/// same due date and an earlier position in the scrape.
pub open spec fn due_before(s: Seq<Assignment>, a: int, b: int) -> bool {
    s[a].due_date > s[b].due_date || (s[a].due_date == s[b].due_date && a < b)
}

/// `ord` is the due-date-descending, stable ordering of all indices of `s`:
/// a permutation of `0 .. s.len()` strictly sorted by `due_before`.
pub open spec fn is_due_desc_order(s: Seq<Assignment>, ord: Seq<usize>) -> bool {
    &&& ord.len() == s.len()
    &&& (forall|p: int| 0 <= p < ord.len() ==> (#[trigger] ord[p]) < s.len())
    &&& (forall|p: int, q: int|
        #![trigger ord[p], ord[q]]
        0 <= p < q < ord.len() ==> due_before(s, ord[p] as int, ord[q] as int))
    &&& (forall|k: int| 0 <= k < s.len() ==> #[trigger] ord.contains(k as usize))
}

/// `due_before` ranks every pair of distinct indices one way or the other.
pub proof fn lemma_due_before_total(s: Seq<Assignment>, a: int, b: int)
    requires
        0 <= a < s.len(),
        0 <= b < s.len(),
        a != b,
    ensures
        due_before(s, a, b) || due_before(s, b, a),
        !(due_before(s, a, b) && due_before(s, b, a)),
{
}

/// A strictly sorted ordering never repeats an index.
pub proof fn lemma_order_injective(s: Seq<Assignment>, ord: Seq<usize>, p: int, q: int)
    requires
        is_due_desc_order(s, ord),
        0 <= p < ord.len(),
        0 <= q < ord.len(),
        p != q,
    ensures
        ord[p] != ord[q],
{
    if p < q {
        assert(due_before(s, ord[p] as int, ord[q] as int));
    } else {
        assert(due_before(s, ord[q] as int, ord[p] as int));
    }
}

/// The first `p` positions of two orderings of the same records agree.
proof fn lemma_order_agree_upto(s: Seq<Assignment>, ord1: Seq<usize>, ord2: Seq<usize>, p: int)
    requires
        is_due_desc_order(s, ord1),
        is_due_desc_order(s, ord2),
        0 <= p <= ord1.len(),
    ensures
        forall|q: int| 0 <= q < p ==> ord1[q] == ord2[q],
    decreases p,
{
    if p > 0 {
        lemma_order_agree_upto(s, ord1, ord2, p - 1);
        let a = ord1[p - 1];
        let b = ord2[p - 1];
        if a != b {
            // each ordering also places the other's element somewhere
            assert(b < s.len());
            assert(ord1.contains(((b as int) as usize)));
            assert(ord1.contains(b));
            let qb = choose|q: int| 0 <= q < ord1.len() && ord1[q] == b;
            if qb < p - 1 {
                lemma_order_injective(s, ord2, qb, p - 1);
            } else {
                assert(qb > p - 1);
                assert(due_before(s, ord1[p - 1] as int, ord1[qb] as int));
            }
            assert(a < s.len());
            assert(ord2.contains(((a as int) as usize)));
            assert(ord2.contains(a));
            let qa = choose|q: int| 0 <= q < ord2.len() && ord2[q] == a;
            if qa < p - 1 {
                lemma_order_injective(s, ord1, qa, p - 1);
            } else {
                assert(qa > p - 1);
                assert(due_before(s, ord2[p - 1] as int, ord2[qa] as int));
            }
            // due_before(s, a, b) and due_before(s, b, a) cannot both hold
            assert(false);
        }
    }
}

/// The ordering predicate pins the ranking down: any two sequences that
/// satisfy it are equal.
pub proof fn lemma_due_desc_order_unique(s: Seq<Assignment>, ord1: Seq<usize>, ord2: Seq<usize>)
    requires
        is_due_desc_order(s, ord1),
        is_due_desc_order(s, ord2),
    ensures
        ord1 == ord2,
{
    lemma_order_agree_upto(s, ord1, ord2, ord1.len() as int);
    assert(ord1 =~= ord2);
}

/// Whether `a` ranks strictly before `b`.
fn comes_before(records: &Vec<Assignment>, a: usize, b: usize) -> (r: bool)
    requires
        a < records@.len(),
        b < records@.len(),
    ensures
        r == due_before(records@, a as int, b as int),
{
    let da = records[a].due_date;
    let db = records[b].due_date;
    da > db || (da == db && a < b)
}

/// Rank all indices of `records` by due date descending, stable in scrape
/// order. The ordering predicate pins the result down uniquely.
pub fn due_desc_order(records: &Vec<Assignment>) -> (ord: Vec<usize>)
    ensures
        is_due_desc_order(records@, ord@),
{
    let ghost s = records@;
    let n = records.len();
    let mut ord: Vec<usize> = Vec::new();
    let mut i: usize = 0;
    while i < n
        invariant
            i <= n,
            n == s.len(),
            s == records@,
            ord@.len() == i,
            forall|p: int| 0 <= p < i ==> (#[trigger] ord@[p]) < i,
            forall|p: int, q: int|
                #![trigger ord@[p], ord@[q]]
                0 <= p < q < i ==> due_before(s, ord@[p] as int, ord@[q] as int),
            forall|k: int| 0 <= k < i ==> #[trigger] ord@.contains(k as usize),
        decreases n - i,
    {
        let mut j: usize = 0;
        while j < ord.len() && comes_before(records, ord[j], i)
            invariant
                j <= ord@.len(),
                i < n,
                n == s.len(),
                s == records@,
                ord@.len() == i,
                forall|p: int| 0 <= p < i ==> (#[trigger] ord@[p]) < i,
                forall|k: int| 0 <= k < j ==> due_before(s, ord@[k] as int, i as int),
            decreases ord@.len() - j,
        {
            j = j + 1;
        }
        let ghost old_ord = ord@;
        proof {
            if (j as int) < old_ord.len() {
                assert(old_ord[j as int] != i);
                assert(!due_before(s, old_ord[j as int] as int, i as int));
                lemma_due_before_total(s, old_ord[j as int] as int, i as int);
                assert(due_before(s, i as int, old_ord[j as int] as int));
            }
        }
        ord.insert(j, i);
        proof {
            old_ord.insert_ensures(j as int, i);
            let jj = j as int;
            let new_ord = ord@;
            assert(new_ord == old_ord.insert(jj, i));
            // how the inserted sequence indexes into the old one
            assert forall|m: int| 0 <= m < jj implies #[trigger] new_ord[m] == old_ord[m] by {
                assert(old_ord.insert(jj, i)[m] == old_ord[m]);
            }
            assert forall|m: int| jj < m < new_ord.len() implies #[trigger] new_ord[m]
                == old_ord[m - 1] by {
                assert(old_ord.insert(jj, i)[(m - 1) + 1] == old_ord[m - 1]);
            }
            assert(new_ord[jj] == i);
            assert forall|p: int, q: int|
                #![trigger new_ord[p], new_ord[q]]
                0 <= p < q < i + 1 implies due_before(
                s,
                new_ord[p] as int,
                new_ord[q] as int,
            ) by {
                if q < jj {
                    assert(new_ord[p] == old_ord[p] && new_ord[q] == old_ord[q]);
                } else if p < jj && q == jj {
                    assert(new_ord[p] == old_ord[p] && new_ord[q] == i);
                } else if p < jj && q > jj {
                    assert(new_ord[p] == old_ord[p] && new_ord[q] == old_ord[q - 1]);
                } else if p == jj {
                    // q > jj, so the old index q - 1 is at or past jj
                    assert(new_ord[p] == i && new_ord[q] == old_ord[q - 1]);
                    assert(due_before(s, i as int, old_ord[jj] as int));
                    if q - 1 > jj {
                        assert(due_before(s, old_ord[jj] as int, old_ord[q - 1] as int));
                    }
                } else {
                    // jj < p < q
                    assert(new_ord[p] == old_ord[p - 1] && new_ord[q] == old_ord[q - 1]);
                }
            }
            assert forall|k: int| 0 <= k < i + 1 implies #[trigger] new_ord.contains(k as usize) by {
                if k < i {
                    assert(old_ord.contains(k as usize));
                    let p = choose|p: int| 0 <= p < old_ord.len() && old_ord[p] == k as usize;
                    if p < jj {
                        assert(new_ord[p] == k as usize);
                    } else {
                        assert(new_ord[p + 1] == k as usize);
                    }
                } else {
                    assert(new_ord[jj] == i as usize);
                }
            }
            assert forall|p: int| 0 <= p < new_ord.len() implies (#[trigger] new_ord[p]) < i
                + 1 by {
                if p < jj {
                    assert(new_ord[p] == old_ord[p]);
                } else if p == jj {
                    assert(new_ord[p] == i);
                } else {
                    assert(new_ord[p] == old_ord[p - 1]);
                }
            }
        }
        i = i + 1;
    }
    ord
}

// ---------------------------------------------------------------------------
// Most-recent selection.
// ---------------------------------------------------------------------------

/// `i` is the index of the most recently assigned candidate: it ranks before
/// every other index (latest due date, ties broken towards scrape order).
pub open spec fn is_most_recent(s: Seq<Assignment>, i: int) -> bool {
    &&& 0 <= i < s.len()
    &&& forall|j: int| 0 <= j < s.len() && j != i ==> due_before(s, i, j)
}

/// Only one index can rank before all the others.
pub proof fn lemma_most_recent_unique(s: Seq<Assignment>, i: int, j: int)
    requires
        is_most_recent(s, i),
        is_most_recent(s, j),
    ensures
        i == j,
{
    if i != j {
        assert(due_before(s, i, j));
        assert(due_before(s, j, i));
    }
}

/// The index of the candidate with the latest due date, earliest scrape order
/// among equals.
fn most_recent_index(records: &Vec<Assignment>) -> (r: usize)
    requires
        records@.len() > 0,
    ensures
        is_most_recent(records@, r as int),
{
    let mut best: usize = 0;
    let mut i: usize = 1;
    while i < records.len()
        invariant
            1 <= i <= records@.len(),
            best < i,
            forall|j: int| 0 <= j < i && j != best ==> due_before(records@, best as int, j),
        decreases records@.len() - i,
    {
        if records[i].due_date > records[best].due_date {
            proof {
                assert forall|j: int| 0 <= j < i + 1 && j != i implies due_before(
                    records@,
                    i as int,
                    j,
                ) by {
                    if j != best {
                        assert(due_before(records@, best as int, j));
                    }
                }
            }
            best = i;
        } else {
            proof {
                assert(due_before(records@, best as int, i as int));
            }
        }
        i = i + 1;
    }
    best
}

// ---------------------------------------------------------------------------
// Resolution.
// ---------------------------------------------------------------------------

/// Resolve a free-text query against the candidates.
///
/// Fails with `EmptyCandidateSet` exactly when there is nothing to resolve
/// against. In most-recent mode the query is ignored and the result is the
/// one most recently assigned index. In fuzzy mode the result lists distinct
/// indices of candidates whose names resemble the whitespace-stripped query,
/// best first; an empty result means nothing cleared the similarity threshold
/// and is the caller's "no match" signal.
pub fn resolve(query: &str, candidates: &Vec<Assignment>, mode: ResolveMode) -> (r: Result<
    Vec<usize>,
    EngineError,
>)
    ensures
        (candidates@.len() == 0 <==> r == Err::<Vec<usize>, EngineError>(
            EngineError::EmptyCandidateSet,
        )),
        (mode == ResolveMode::Fuzzy && candidates@.len() > 0 ==> r is Ok),
        (mode == ResolveMode::MostRecent && candidates@.len() > 0 ==> (r matches Ok(v)
            && v@.len() == 1 && is_most_recent(candidates@, v@[0] as int))),
        (r matches Ok(v) ==> forall|k: int| 0 <= k < v@.len() ==> (#[trigger] v@[k])
            < candidates@.len()),
        (r matches Ok(v) ==> forall|k1: int, k2: int| 0 <= k1 < k2 < v@.len() ==> v@[k1]
            != v@[k2]),
{
    if candidates.len() == 0 {
        return Err(EngineError::EmptyCandidateSet);
    }
    match mode {
        ResolveMode::MostRecent => {
            let idx = most_recent_index(candidates);
            let mut v: Vec<usize> = Vec::new();
            v.push(idx);
            Ok(v)
        },
        ResolveMode::Fuzzy => {
            let ord = due_desc_order(candidates);
            let stripped = remove_whitespace(query);
            let mut engine = sim_new();
            let mut p: usize = 0;
            while p < ord.len()
                invariant
                    p <= ord@.len(),
                    is_due_desc_order(candidates@, ord@),
                    forall|k: usize| sim_entries(engine).dom().contains(k) <==> (k as int)
                        < p as int,
                decreases ord@.len() - p,
            {
                let idx = ord[p];
                sim_insert(&mut engine, p, candidates[idx].name.as_str());
                p = p + 1;
            }
            let hits = sim_search(&engine, stripped.as_str());
            let mut out: Vec<usize> = Vec::new();
            let mut k: usize = 0;
            while k < hits.len()
                invariant
                    k <= hits@.len(),
                    out@.len() == k,
                    is_due_desc_order(candidates@, ord@),
                    forall|x: int| 0 <= x < hits@.len() ==> (#[trigger] hits@[x]) < ord@.len(),
                    forall|x1: int, x2: int| 0 <= x1 < x2 < hits@.len() ==> hits@[x1] != hits@[x2],
                    forall|x: int| 0 <= x < k ==> out@[x] == ord@[#[trigger] hits@[x] as int],
                    forall|x: int| 0 <= x < k ==> (#[trigger] out@[x]) < candidates@.len(),
                decreases hits@.len() - k,
            {
                let h = hits[k];
                out.push(ord[h]);
                k = k + 1;
            }
            proof {
                assert forall|x1: int, x2: int| 0 <= x1 < x2 < out@.len() implies out@[x1]
                    != out@[x2] by {
                    assert(hits@[x1] != hits@[x2]);
                    lemma_order_injective(
                        candidates@,
                        ord@,
                        hits@[x1] as int,
                        hits@[x2] as int,
                    );
                }
            }
            Ok(out)
        },
    }
}

} // verus!
