//! The data model: one scraped assignment, its lateness predicate, and the
//! submission endpoint it maps to.
//!
//! Grades and weights are percentages held in hundredths (a grade of `90`
//! arrives as `9000`), so that every projection is exact integer arithmetic.
//! Due dates are seconds on one shared timeline (the Unix epoch), so that
//! comparing a record against "now" never mixes temporal references.

use vstd::prelude::*;
use crate::text::{dec_str, u64_to_dec};
use vstd::string::*;

verus! {

/// A weight of 100.00 percent, in hundredths.
pub const MAX_WEIGHT: u64 = 10_000;

/// The largest grade the engine accepts, in hundredths of a percent. Grades
/// above 100 percent are legal (extra credit); this cap only keeps weighted
/// sums inside machine integers.
pub const MAX_GRADE: u64 = 1_000_000;

/// A bound on timestamps, in seconds from the epoch: wider than every instant
/// the calendar of the scraping collaborator can represent.
pub const MAX_TIMESTAMP: i64 = 9_000_000_000_000;

/// An immutable scraped fact about one assignment.
#[derive(Clone, Debug, PartialEq)]
pub struct Assignment {
    /// Display text, non-empty, not guaranteed unique.
    pub name: String,
    /// Opaque identifier, unique within a course.
    pub id: u64,
    /// The grade in hundredths of a percent, present iff the assignment has
    /// been graded. Absence is the authoritative "ungraded" signal.
    pub grade: Option<u64>,
    /// The percentage of the course grade this assignment contributes, in
    /// hundredths.
    pub weight: u64,
    /// The due instant, in seconds from the epoch.
    pub due_date: i64,
}

impl Assignment {
    /// Well-formedness: the invariants of the source data plus the machine
    /// bounds the aggregates need.
    pub open spec fn wf(self) -> bool {
        &&& self.name@.len() > 0
        &&& self.weight <= MAX_WEIGHT
        &&& (self.grade matches Some(g) ==> g <= MAX_GRADE)
        &&& -MAX_TIMESTAMP <= self.due_date <= MAX_TIMESTAMP
    }

    /// Construct a record.
    pub fn new(name: String, id: u64, grade: Option<u64>, weight: u64, due_date: i64) -> (r:
        Assignment)
        requires
            name@.len() > 0,
            weight <= MAX_WEIGHT,
            grade matches Some(g) ==> g <= MAX_GRADE,
            -MAX_TIMESTAMP <= due_date <= MAX_TIMESTAMP,
        ensures
            r == (Assignment { name, id, grade, weight, due_date }),
            r.wf(),
    {
        Assignment { name, id, grade, weight, due_date }
    }

    /// Whether the assignment has been graded.
    pub open spec fn spec_graded(self) -> bool {
        self.grade is Some
    }

    /// Whether the assignment has been graded.
    pub fn graded(&self) -> (r: bool)
        ensures
            r == self.spec_graded(),
    {
        self.grade.is_some()
    }

    /// Late exactly when `now` has reached the due instant (the due instant
    /// itself counts as late).
    pub open spec fn late_at(self, now: i64) -> bool {
        now >= self.due_date
    }

    /// The lateness predicate against an explicit "now".
    pub fn is_late(&self, now: i64) -> (r: bool)
        ensures
            r == self.late_at(now),
    {
        now >= self.due_date
    }

    /// The lateness predicate against the wall clock. The result depends on
    /// the instant of the call; `is_late` carries the exact contract.
    pub fn late(&self) -> bool {
        let now = now_timestamp();
        self.is_late(now)
    }

    /// Seconds elapsed since the due instant at `now` (negative when early).
    pub fn how_late_at(&self, now: i64) -> (r: i64)
        requires
            self.wf(),
            -MAX_TIMESTAMP <= now <= MAX_TIMESTAMP,
        ensures
            r == now - self.due_date,
    {
        now - self.due_date
    }

    /// Seconds elapsed since the due instant at the wall clock. The result
    /// depends on the instant of the call; `how_late_at` carries the exact
    /// contract.
    pub fn how_late(&self) -> i64
        requires
            self.wf(),
    {
        let now = now_timestamp();
        self.how_late_at(now)
    }

    /// The submission endpoint for this assignment in course `course_id`.
    pub fn submission_link(&self, course_id: u64) -> (r: String)
        ensures
            r@ == submission_link_spec(course_id, self.id),
    {
        let mut s = String::from_str("https://handins.ccs.neu.edu/courses/");
        s.append(u64_to_dec(course_id).as_str());
        s.append("/assignments/");
        s.append(u64_to_dec(self.id).as_str());
        s.append("/submissions/new");
        proof {
            assert(s@ =~= submission_link_spec(course_id, self.id));
        }
        s
    }
}

/// The shape `{base}/courses/{courseId}/assignments/{assignmentId}/submissions/new`.
pub open spec fn submission_link_spec(course_id: u64, assignment_id: u64) -> Seq<char> {
    "https://handins.ccs.neu.edu/courses/"@ + dec_str(course_id as nat) + "/assignments/"@
        + dec_str(assignment_id as nat) + "/submissions/new"@
}

/// The positions of the ungraded records, in scrape order: the candidate set
/// for a submission action. The result lists, strictly increasing, exactly
/// the indices whose record carries no grade.
pub fn ungraded_indices(records: &Vec<Assignment>) -> (r: Vec<usize>)
    ensures
        forall|k: int| 0 <= k < r@.len() ==> (#[trigger] r@[k]) < records@.len() && !records@[r@[k] as int].spec_graded(),
        forall|k1: int, k2: int| 0 <= k1 < k2 < r@.len() ==> r@[k1] < r@[k2],
        forall|i: int| 0 <= i < records@.len() && !records@[i].spec_graded()
            ==> #[trigger] r@.contains(i as usize),
{
    let mut r: Vec<usize> = Vec::new();
    let mut i: usize = 0;
    while i < records.len()
        invariant
            i <= records@.len(),
            forall|k: int| 0 <= k < r@.len() ==> (#[trigger] r@[k]) < i && !records@[r@[k] as int].spec_graded(),
            forall|k1: int, k2: int| 0 <= k1 < k2 < r@.len() ==> r@[k1] < r@[k2],
            forall|j: int| 0 <= j < i && !records@[j].spec_graded() ==> #[trigger] r@.contains(j as usize),
        decreases records@.len() - i,
    {
        let ghost old_r = r@;
        if !records[i].graded() {
            r.push(i);
            proof {
                assert forall|j: int|
                    0 <= j < i + 1 && !records@[j].spec_graded() implies #[trigger] r@.contains(j as usize) by {
                    if j < i {
                        assert(old_r.contains(j as usize));
                        let p = choose|p: int| 0 <= p < old_r.len() && old_r[p] == j as usize;
                        assert(r@[p] == j as usize);
                    } else {
                        assert(r@[old_r.len() as int] == i as usize);
                    }
                }
            }
        }
        i = i + 1;
    }
    r
}

/// Relies on `chrono::Local::now` and `chrono::DateTime::timestamp`: the
/// current instant in seconds since the Unix epoch. Nothing is promised of
/// which instant comes back, only that it lies within the calendar range the
/// crate can represent (years -262143 to 262142, well inside `MAX_TIMESTAMP`).
/// `Local::now` panics if the system clock itself stands outside that range;
/// that is environmental, not a function of any input.
#[verifier::external_body]
fn now_timestamp() -> (r: i64)
    ensures
        -MAX_TIMESTAMP <= r <= MAX_TIMESTAMP,
{
    chrono::Local::now().timestamp()
}

} // verus!
