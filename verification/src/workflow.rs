//! The interactive disambiguation workflow: a pure state machine over the
//! ranked candidate list from the resolver.
//!
//! Each pending candidate is presented for a yes/no confirmation; an accepted
//! candidate that is late must pass a second, independent lateness gate
//! before it is released. The machine is a pure transition function
//! `(state, response) -> state`; an I/O adapter around it prompts, reads one
//! line, parses it with `parse_response` and feeds the result back in.
//! Unparseable input maps to `Response::Other`, which re-enters the same
//! state: the malformed-input condition is recovered locally and never
//! surfaces as an error value.

use vstd::prelude::*;
use crate::assignment::Assignment;
use crate::errors::EngineError;
use crate::text::{trim, trimmed};
use vstd::string::*;

verus! {

/// One parsed line of confirmation input.
#[derive(Clone, Copy, Debug, PartialEq, Eq, Structural)]
pub enum Response {
    /// "y" or "yes", case-insensitively.
    Yes,
    /// "n" or "no", case-insensitively.
    No,
    /// Nothing but whitespace.
    Empty,
    /// Anything else: unparseable, to be re-prompted.
    Other,
}

/// `c` equals the ASCII letter `lower`, case-insensitively (`lower` is given
/// in lower case).
pub open spec fn matches_ci(c: char, lower: char) -> bool {
    c == lower || (c as u32) + 32 == (lower as u32)
}

/// The word "y" or "yes", case-insensitively.
pub open spec fn is_yes_word(t: Seq<char>) -> bool {
    (t.len() == 1 && matches_ci(t[0], 'y')) || (t.len() == 3 && matches_ci(t[0], 'y')
        && matches_ci(t[1], 'e') && matches_ci(t[2], 's'))
}

/// The word "n" or "no", case-insensitively.
pub open spec fn is_no_word(t: Seq<char>) -> bool {
    (t.len() == 1 && matches_ci(t[0], 'n')) || (t.len() == 2 && matches_ci(t[0], 'n')
        && matches_ci(t[1], 'o'))
}

/// How one input line reads after trimming.
pub open spec fn response_of(line: Seq<char>) -> Response {
    let t = trimmed(line);
    if t.len() == 0 {
        Response::Empty
    } else if is_yes_word(t) {
        Response::Yes
    } else if is_no_word(t) {
        Response::No
    } else {
        Response::Other
    }
}

/// Case-insensitive comparison against one lower-case ASCII letter.
fn char_matches_ci(c: char, lower: char) -> (r: bool)
    ensures
        r == matches_ci(c, lower),
{
    c == lower || (c as u32) + 32 == (lower as u32)
}

/// Parse one line of confirmation input.
pub fn parse_response(line: &str) -> (r: Response)
    ensures
        r == response_of(line@),
{
    let t = trim(line);
    let n = t.unicode_len();
    if n == 0 {
        Response::Empty
    } else if n == 1 {
        let c0 = t.get_char(0);
        if char_matches_ci(c0, 'y') {
            Response::Yes
        } else if char_matches_ci(c0, 'n') {
            Response::No
        } else {
            Response::Other
        }
    } else if n == 2 {
        let c0 = t.get_char(0);
        let c1 = t.get_char(1);
        if char_matches_ci(c0, 'n') && char_matches_ci(c1, 'o') {
            Response::No
        } else {
            Response::Other
        }
    } else if n == 3 {
        let c0 = t.get_char(0);
        let c1 = t.get_char(1);
        let c2 = t.get_char(2);
        if char_matches_ci(c0, 'y') && char_matches_ci(c1, 'e') && char_matches_ci(c2, 's') {
            Response::Yes
        } else {
            Response::Other
        }
    } else {
        Response::Other
    }
}

/// The states of the disambiguation workflow.
#[derive(Clone, Copy, Debug, PartialEq, Eq, Structural)]
pub enum WorkflowState {
    /// Candidate `pos` of the ranked list is presented, awaiting yes/no.
    Pending { pos: usize },
    /// Candidate `pos` was accepted but is late: awaiting the second,
    /// independent lateness confirmation.
    ConfirmingLate { pos: usize },
    /// Terminal success: candidate `pos` is released to the caller.
    Confirmed { pos: usize },
    /// Terminal failure: every ranked candidate was rejected.
    Exhausted,
    /// Terminal failure: the user aborted at the lateness gate.
    Aborted,
}

impl WorkflowState {
    /// Any candidate position held by the state is an index of the ranked
    /// list.
    pub open spec fn wf(self, n: int) -> bool {
        match self {
            WorkflowState::Pending { pos } => pos < n,
            WorkflowState::ConfirmingLate { pos } => pos < n,
            WorkflowState::Confirmed { pos } => pos < n,
            WorkflowState::Exhausted => true,
            WorkflowState::Aborted => true,
        }
    }

    /// Whether the workflow has finished.
    pub open spec fn is_terminal(self) -> bool {
        match self {
            WorkflowState::Confirmed { .. } => true,
            WorkflowState::Exhausted => true,
            WorkflowState::Aborted => true,
            _ => false,
        }
    }
}

/// The transition function. At a pending candidate: affirmative (including an
/// empty line) accepts it, subject to the lateness gate; negative advances to
/// the next candidate or exhausts the list; anything else re-prompts. At the
/// lateness gate: only an explicit affirmative releases the candidate, a
/// negative or empty line aborts the whole operation, anything else
/// re-prompts. Terminal states absorb every response.
pub open spec fn step_spec(
    ranked: Seq<Assignment>,
    now: i64,
    st: WorkflowState,
    resp: Response,
) -> WorkflowState {
    match st {
        WorkflowState::Pending { pos } => match resp {
            Response::Yes | Response::Empty => if ranked[pos as int].late_at(now) {
                WorkflowState::ConfirmingLate { pos }
            } else {
                WorkflowState::Confirmed { pos }
            },
            Response::No => if pos + 1 < ranked.len() {
                WorkflowState::Pending { pos: (pos + 1) as usize }
            } else {
                WorkflowState::Exhausted
            },
            Response::Other => st,
        },
        WorkflowState::ConfirmingLate { pos } => match resp {
            Response::Yes => WorkflowState::Confirmed { pos },
            Response::No | Response::Empty => WorkflowState::Aborted,
            Response::Other => st,
        },
        _ => st,
    }
}

/// Take one step of the workflow.
pub fn step(ranked: &Vec<Assignment>, now: i64, st: WorkflowState, resp: Response) -> (r:
    WorkflowState)
    requires
        st.wf(ranked@.len() as int),
    ensures
        r == step_spec(ranked@, now, st, resp),
        r.wf(ranked@.len() as int),
{
    match st {
        WorkflowState::Pending { pos } => match resp {
            Response::Yes | Response::Empty => {
                if ranked[pos].is_late(now) {
                    WorkflowState::ConfirmingLate { pos }
                } else {
                    WorkflowState::Confirmed { pos }
                }
            },
            Response::No => {
                if pos < ranked.len() - 1 {
                    WorkflowState::Pending { pos: pos + 1 }
                } else {
                    WorkflowState::Exhausted
                }
            },
            Response::Other => st,
        },
        WorkflowState::ConfirmingLate { pos } => match resp {
            Response::Yes => WorkflowState::Confirmed { pos },
            Response::No | Response::Empty => WorkflowState::Aborted,
            Response::Other => st,
        },
        _ => st,
    }
}

/// Enter the workflow over a ranked candidate list. An empty list means the
/// fuzzy search returned nothing above its threshold: `NoMatch`.
pub fn start(ranked: &Vec<Assignment>) -> (r: Result<WorkflowState, EngineError>)
    ensures
        ranked@.len() == 0 ==> r == Err::<WorkflowState, EngineError>(EngineError::NoMatch),
        ranked@.len() > 0 ==> r == Ok::<WorkflowState, EngineError>(
            (WorkflowState::Pending { pos: 0 }),
        ),
        (r matches Ok(st) ==> st.wf(ranked@.len() as int)),
{
    if ranked.len() == 0 {
        Err(EngineError::NoMatch)
    } else {
        Ok(WorkflowState::Pending { pos: 0 })
    }
}

/// What a state means to the caller: nothing yet, a confirmed position, or a
/// terminal failure.
pub open spec fn outcome_spec(st: WorkflowState) -> Option<Result<usize, EngineError>> {
    match st {
        WorkflowState::Confirmed { pos } => Some(Ok(pos)),
        WorkflowState::Exhausted => Some(Err(EngineError::ExhaustedCandidates)),
        WorkflowState::Aborted => Some(Err(EngineError::UserAborted)),
        _ => None,
    }
}

/// Read the workflow's result off a state.
pub fn outcome(st: WorkflowState) -> (r: Option<Result<usize, EngineError>>)
    ensures
        r == outcome_spec(st),
{
    match st {
        WorkflowState::Confirmed { pos } => Some(Ok(pos)),
        WorkflowState::Exhausted => Some(Err(EngineError::ExhaustedCandidates)),
        WorkflowState::Aborted => Some(Err(EngineError::UserAborted)),
        _ => None,
    }
}

/// The state after feeding the responses one at a time.
pub open spec fn run(
    ranked: Seq<Assignment>,
    now: i64,
    st: WorkflowState,
    resps: Seq<Response>,
) -> WorkflowState
    decreases resps.len(),
{
    if resps.len() == 0 {
        st
    } else {
        run(ranked, now, step_spec(ranked, now, st, resps[0]), resps.drop_first())
    }
}

/// A finished workflow stays finished, whatever else is fed in.
pub proof fn lemma_terminal_absorbs(
    ranked: Seq<Assignment>,
    now: i64,
    st: WorkflowState,
    resps: Seq<Response>,
)
    requires
        st.is_terminal(),
    ensures
        run(ranked, now, st, resps) == st,
    decreases resps.len(),
{
    if resps.len() > 0 {
        lemma_terminal_absorbs(ranked, now, st, resps.drop_first());
    }
}

/// Reaching the end of the ranked list without any "yes" terminates the
/// workflow in `Exhausted`: one negative response per remaining candidate
/// exhausts the list, so the machine never loops forever on valid input.
pub proof fn lemma_all_no_exhausts(
    ranked: Seq<Assignment>,
    now: i64,
    pos: usize,
    resps: Seq<Response>,
)
    requires
        ranked.len() <= usize::MAX,
        (pos as int) < ranked.len(),
        resps.len() == ranked.len() - pos as int,
        forall|k: int| 0 <= k < resps.len() ==> resps[k] == Response::No,
    ensures
        run(ranked, now, (WorkflowState::Pending { pos }), resps) == WorkflowState::Exhausted,
    decreases resps.len(),
{
    let st0 = WorkflowState::Pending { pos };
    let st1 = step_spec(ranked, now, st0, resps[0]);
    let rest = resps.drop_first();
    assert(resps.len() > 0);
    assert(run(ranked, now, st0, resps) == run(ranked, now, st1, rest));
    if pos + 1 < ranked.len() {
        assert(st1 == (WorkflowState::Pending { pos: (pos + 1) as usize }));
        assert(forall|k: int| 0 <= k < rest.len() ==> rest[k] == Response::No);
        lemma_all_no_exhausts(ranked, now, (pos + 1) as usize, rest);
    } else {
        assert(st1 == WorkflowState::Exhausted);
        assert(rest.len() == 0);
    }
}

} // verus!
