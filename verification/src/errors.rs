//! The failure kinds the engine can report, and the human-readable message
//! each one maps to.

use vstd::prelude::*;

verus! {

/// Every terminal failure of the engine. Malformed confirmation responses are
/// recovered locally by re-prompting (see [`crate::workflow`]) and never
/// surface as a value of this type.
#[derive(Clone, Copy, Debug, PartialEq, Eq, Structural)]
pub enum EngineError {
    /// The resolver was invoked with no ungraded assignments.
    EmptyCandidateSet,
    /// `current` or `upside` was requested with zero graded weight.
    UndefinedProjection,
    /// The fuzzy search returned nothing above its similarity threshold.
    NoMatch,
    /// The user answered "no" at a confirmation gate.
    UserAborted,
    /// Every ranked candidate was rejected.
    ExhaustedCandidates,
}

/// The one message each error kind maps to.
pub open spec fn message_of(e: EngineError) -> Seq<char> {
    match e {
        EngineError::EmptyCandidateSet => "all assignments have been graded!"@,
        EngineError::UndefinedProjection => "no graded weight: current grade and upside are undefined"@,
        EngineError::NoMatch => "assignment name didn't match any assignments!"@,
        EngineError::UserAborted => "not submitting assignment, shutting down"@,
        EngineError::ExhaustedCandidates => "couldn't find the right assignment, shutting down"@,
    }
}

impl EngineError {
    /// The human-readable message for this error kind.
    pub fn message(&self) -> (r: &'static str)
        ensures
            r@ == message_of(*self),
    {
        match self {
            EngineError::EmptyCandidateSet => "all assignments have been graded!",
            EngineError::UndefinedProjection => "no graded weight: current grade and upside are undefined",
            EngineError::NoMatch => "assignment name didn't match any assignments!",
            EngineError::UserAborted => "not submitting assignment, shutting down",
            EngineError::ExhaustedCandidates => "couldn't find the right assignment, shutting down",
        }
    }
}

} // verus!
