use handins::assignment::{ungraded_indices, Assignment};
use handins::errors::EngineError;
use handins::resolver::{due_desc_order, resolve, ResolveMode};
use handins::workflow::{outcome, parse_response, start, step, Response, WorkflowState};

fn mk(name: &str, grade: Option<u64>, weight: u64, due_date: i64) -> Assignment {
    Assignment::new(name.to_string(), 1, grade, weight, due_date)
}

#[test]
fn ungraded_selection() {
    let records = vec![
        mk("HW1", Some(9000), 2000, 100),
        mk("HW2", None, 3000, 200),
        mk("HW3", None, 5000, 300),
        mk("HW4", Some(100), 0, 400),
    ];
    assert_eq!(ungraded_indices(&records), vec![1, 2]);
    let all_graded = vec![mk("HW1", Some(1), 1000, 5)];
    assert_eq!(ungraded_indices(&all_graded), Vec::<usize>::new());
}

#[test]
fn due_order_is_descending_and_stable() {
    let records = vec![
        mk("A", None, 0, 5),
        mk("B", None, 0, 10),
        mk("C", None, 0, 10),
        mk("D", None, 0, 1),
    ];
    assert_eq!(due_desc_order(&records), vec![1, 2, 0, 3]);
}

#[test]
fn most_recent_mode_picks_argmax_and_ignores_query() {
    let records = vec![mk("HW2", None, 3000, 100), mk("HW3", None, 5000, 200)];
    assert_eq!(resolve("HW2", &records, ResolveMode::MostRecent), Ok(vec![1]));
    assert_eq!(resolve("complete nonsense", &records, ResolveMode::MostRecent), Ok(vec![1]));
    // ties go to scrape order
    let tied = vec![mk("HW2", None, 3000, 100), mk("HW3", None, 5000, 100)];
    assert_eq!(resolve("", &tied, ResolveMode::MostRecent), Ok(vec![0]));
}

#[test]
fn resolve_empty_candidates_fails() {
    let records: Vec<Assignment> = vec![];
    assert_eq!(
        resolve("hw2", &records, ResolveMode::Fuzzy),
        Err(EngineError::EmptyCandidateSet)
    );
    assert_eq!(
        resolve("hw2", &records, ResolveMode::MostRecent),
        Err(EngineError::EmptyCandidateSet)
    );
}

#[test]
fn fuzzy_mode_ranks_matching_name_first() {
    // HW2 and HW3 ungraded, sorted by due date descending inside the resolver
    let records = vec![mk("HW2", None, 3000, 200), mk("HW3", None, 5000, 100)];
    let hits = resolve("hw2", &records, ResolveMode::Fuzzy).unwrap();
    assert!(!hits.is_empty());
    assert_eq!(hits[0], 0);
}

#[test]
fn fuzzy_mode_exact_match_beats_equal_date_candidates() {
    // same due date: the exact (whitespace-stripped) name match ranks first
    // even though it comes later in the scrape
    let records = vec![mk("HW3", None, 5000, 100), mk("HW2", None, 3000, 100)];
    let hits = resolve("hw2", &records, ResolveMode::Fuzzy).unwrap();
    assert!(!hits.is_empty());
    assert_eq!(hits[0], 1);
}

#[test]
fn fuzzy_mode_strips_query_whitespace() {
    let records = vec![mk("HW2", None, 3000, 200), mk("HW3", None, 5000, 100)];
    let hits = resolve(" h w 2 ", &records, ResolveMode::Fuzzy).unwrap();
    assert!(!hits.is_empty());
    assert_eq!(hits[0], 0);
}

#[test]
fn fuzzy_mode_below_threshold_returns_empty() {
    let records = vec![mk("HW2", None, 3000, 200), mk("HW3", None, 5000, 100)];
    let hits = resolve("zzzzzzzz", &records, ResolveMode::Fuzzy).unwrap();
    assert!(hits.is_empty());
}

#[test]
fn response_grammar() {
    assert_eq!(parse_response("y"), Response::Yes);
    assert_eq!(parse_response("Y"), Response::Yes);
    assert_eq!(parse_response("yes"), Response::Yes);
    assert_eq!(parse_response("YES"), Response::Yes);
    assert_eq!(parse_response(" yes "), Response::Yes);
    assert_eq!(parse_response("n"), Response::No);
    assert_eq!(parse_response("No"), Response::No);
    assert_eq!(parse_response("NO"), Response::No);
    assert_eq!(parse_response(""), Response::Empty);
    assert_eq!(parse_response("   \t"), Response::Empty);
    assert_eq!(parse_response("maybe"), Response::Other);
    assert_eq!(parse_response("yess"), Response::Other);
    assert_eq!(parse_response("ye"), Response::Other);
}

#[test]
fn workflow_empty_ranked_list_is_no_match() {
    let ranked: Vec<Assignment> = vec![];
    assert_eq!(start(&ranked), Err(EngineError::NoMatch));
}

#[test]
fn workflow_accepts_on_time_candidate() {
    let ranked = vec![mk("HW2", None, 3000, 1000), mk("HW3", None, 5000, 500)];
    let now = 100;  // nothing is late yet
    let st = start(&ranked).unwrap();
    assert_eq!(st, WorkflowState::Pending { pos: 0 });
    let st = step(&ranked, now, st, Response::Yes);
    assert_eq!(st, WorkflowState::Confirmed { pos: 0 });
    assert_eq!(outcome(st), Some(Ok(0)));
}

#[test]
fn workflow_empty_line_confirms_candidate() {
    let ranked = vec![mk("HW2", None, 3000, 1000)];
    let st = step(&ranked, 100, WorkflowState::Pending { pos: 0 }, Response::Empty);
    assert_eq!(st, WorkflowState::Confirmed { pos: 0 });
}

#[test]
fn workflow_no_advances_then_exhausts() {
    let ranked = vec![
        mk("HW1", None, 1000, 1000),
        mk("HW2", None, 1000, 900),
        mk("HW3", None, 1000, 800),
    ];
    let now = 100;
    let mut st = start(&ranked).unwrap();
    st = step(&ranked, now, st, Response::No);
    assert_eq!(st, WorkflowState::Pending { pos: 1 });
    st = step(&ranked, now, st, Response::No);
    assert_eq!(st, WorkflowState::Pending { pos: 2 });
    st = step(&ranked, now, st, Response::No);
    assert_eq!(st, WorkflowState::Exhausted);
    assert_eq!(outcome(st), Some(Err(EngineError::ExhaustedCandidates)));
    // a finished workflow stays finished
    assert_eq!(step(&ranked, now, st, Response::Yes), WorkflowState::Exhausted);
}

#[test]
fn workflow_reprompts_on_malformed_input() {
    let ranked = vec![mk("HW1", None, 1000, 1000)];
    let st = WorkflowState::Pending { pos: 0 };
    assert_eq!(step(&ranked, 100, st, Response::Other), st);
    let late_gate = WorkflowState::ConfirmingLate { pos: 0 };
    assert_eq!(step(&ranked, 2000, late_gate, Response::Other), late_gate);
}

#[test]
fn workflow_late_candidate_needs_second_confirmation() {
    let ranked = vec![mk("HW1", None, 1000, 1000)];
    let now = 1000;  // exactly the due instant counts as late
    let st = step(&ranked, now, WorkflowState::Pending { pos: 0 }, Response::Yes);
    assert_eq!(st, WorkflowState::ConfirmingLate { pos: 0 });
    let accepted = step(&ranked, now, st, Response::Yes);
    assert_eq!(accepted, WorkflowState::Confirmed { pos: 0 });
    assert_eq!(outcome(accepted), Some(Ok(0)));
}

#[test]
fn workflow_late_gate_aborts_on_no_or_empty() {
    let ranked = vec![mk("HW1", None, 1000, 1000)];
    let now = 5000;
    let gate = WorkflowState::ConfirmingLate { pos: 0 };
    let aborted = step(&ranked, now, gate, Response::No);
    assert_eq!(aborted, WorkflowState::Aborted);
    assert_eq!(outcome(aborted), Some(Err(EngineError::UserAborted)));
    assert_eq!(step(&ranked, now, gate, Response::Empty), WorkflowState::Aborted);
}

#[test]
fn workflow_end_to_end_resolution() {
    // resolve "hw2" over the ungraded set, then confirm the top candidate
    let records = vec![
        mk("HW1", Some(9000), 2000, 100),
        mk("HW2", None, 3000, 300),
        mk("HW3", None, 5000, 200),
    ];
    let idx = ungraded_indices(&records);
    assert_eq!(idx, vec![1, 2]);
    let candidates: Vec<Assignment> = idx.iter().map(|&i| records[i].clone()).collect();
    let hits = resolve("hw2", &candidates, ResolveMode::Fuzzy).unwrap();
    let ranked: Vec<Assignment> = hits.iter().map(|&i| candidates[i].clone()).collect();
    let now = 250;  // HW2 (due 300) is not late
    let mut st = start(&ranked).unwrap();
    st = step(&ranked, now, st, Response::Yes);
    let pos = outcome(st).unwrap().unwrap();
    assert_eq!(ranked[pos].name, "HW2");
}
