use handins::assignment::Assignment;
use handins::course::lookup_course;
use handins::errors::EngineError;
use handins::fraction::Fraction;
use handins::grade::calculate_grade;
use handins::text::{remove_whitespace, u64_to_dec};

fn mk(name: &str, grade: Option<u64>, weight: u64, due_date: i64) -> Assignment {
    Assignment::new(name.to_string(), 1, grade, weight, due_date)
}

fn is_value(f: &Fraction, v: i128) -> bool {
    f.den > 0 && f.num == v * f.den
}

#[test]
fn projection_end_to_end_fixture() {
    // HW1 graded 90 with weight 20, HW2 and HW3 ungraded with weights 30, 50.
    let records = vec![
        mk("HW1", Some(9000), 2000, 100),
        mk("HW2", None, 3000, 200),
        mk("HW3", None, 5000, 300),
    ];
    let p = calculate_grade(&records);
    assert!(is_value(&p.current.unwrap(), 90));
    assert!(is_value(&p.minimum, 18));
    assert!(is_value(&p.maximum, 98));
    assert!(is_value(&p.upside.unwrap(), 8));
}

#[test]
fn projection_exact_fractions() {
    let records = vec![mk("HW1", Some(9000), 2000, 100), mk("HW2", None, 8000, 200)];
    let p = calculate_grade(&records);
    // scaled points: 9000 * 2000
    assert_eq!(p.minimum.num, 18_000_000);
    assert_eq!(p.minimum.den, 1_000_000);
    let cur = p.current.unwrap();
    assert_eq!(cur.num, 18_000_000);
    assert_eq!(cur.den, 200_000);
}

#[test]
fn projection_nothing_graded_is_undefined() {
    let records = vec![mk("HW1", None, 4000, 100), mk("HW2", None, 6000, 200)];
    let p = calculate_grade(&records);
    assert_eq!(p.current, Err(EngineError::UndefinedProjection));
    assert_eq!(p.upside, Err(EngineError::UndefinedProjection));
    assert!(is_value(&p.minimum, 0));
    assert!(is_value(&p.maximum, 100));
}

#[test]
fn projection_empty_scrape_is_undefined() {
    let records: Vec<Assignment> = vec![];
    let p = calculate_grade(&records);
    assert_eq!(p.current, Err(EngineError::UndefinedProjection));
    assert_eq!(p.upside, Err(EngineError::UndefinedProjection));
    assert!(is_value(&p.minimum, 0));
}

#[test]
fn projection_all_graded_upside_zero_min_eq_max() {
    // Weights sum to 100; everything graded.
    let records = vec![mk("HW1", Some(8000), 4000, 100), mk("HW2", Some(9000), 6000, 200)];
    let p = calculate_grade(&records);
    assert!(is_value(&p.upside.unwrap(), 0));
    assert_eq!(p.minimum, p.maximum);
    assert!(is_value(&p.minimum, 86));
    assert!(is_value(&p.current.unwrap(), 86));
}

#[test]
fn projection_minimum_le_current_le_maximum() {
    let records = vec![
        mk("HW1", Some(7350), 1500, 100),
        mk("HW2", Some(9125), 2500, 200),
        mk("HW3", None, 6000, 300),
    ];
    let p = calculate_grade(&records);
    let cur = p.current.unwrap();
    // compare by cross-multiplication: every denominator is positive
    assert!(p.minimum.num * cur.den <= cur.num * p.minimum.den);
    assert!(cur.num * p.maximum.den <= p.maximum.num * cur.den);
}

#[test]
fn projection_zero_weight_graded_item_is_safe() {
    // A weight of exactly zero is legal and must not cause division errors.
    let records = vec![mk("Bonus", Some(10000), 0, 100), mk("HW1", None, 10000, 200)];
    let p = calculate_grade(&records);
    // graded weight sum is zero, so current/upside are undefined, minimum is 0
    assert_eq!(p.current, Err(EngineError::UndefinedProjection));
    assert_eq!(p.upside, Err(EngineError::UndefinedProjection));
    assert!(is_value(&p.minimum, 0));
}

#[test]
fn lateness_boundary() {
    let a = mk("HW1", None, 1000, 1_000_000);
    assert!(a.is_late(1_000_000));
    assert!(!a.is_late(999_999));
    assert!(a.is_late(1_000_001));
    assert_eq!(a.how_late_at(1_000_010), 10);
    assert_eq!(a.how_late_at(999_990), -10);
}

#[test]
fn lateness_against_wall_clock() {
    // due in 1970: late by now; due far in the future: not late
    let past = mk("HW1", None, 1000, 0);
    let future = mk("HW2", None, 1000, 9_999_999_999);
    assert!(past.late());
    assert!(!future.late());
    assert!(past.how_late() > 0);
}

#[test]
fn graded_flag() {
    assert!(mk("HW1", Some(0), 1000, 5).graded());
    assert!(!mk("HW1", None, 1000, 5).graded());
}

#[test]
fn submission_link_shape() {
    let a = Assignment::new("HW1".to_string(), 42, None, 1000, 5);
    assert_eq!(
        a.submission_link(129),
        "https://handins.ccs.neu.edu/courses/129/assignments/42/submissions/new"
    );
    let b = Assignment::new("HW2".to_string(), 0, None, 1000, 5);
    assert_eq!(
        b.submission_link(7),
        "https://handins.ccs.neu.edu/courses/7/assignments/0/submissions/new"
    );
}

#[test]
fn decimal_rendering() {
    assert_eq!(u64_to_dec(0), "0");
    assert_eq!(u64_to_dec(7), "7");
    assert_eq!(u64_to_dec(1090), "1090");
    assert_eq!(u64_to_dec(18446744073709551615), "18446744073709551615");
}

#[test]
fn course_lookup_known_names() {
    assert_eq!(lookup_course("cs2510"), Ok(129));
    assert_eq!(lookup_course("CS2510"), Ok(129));
    assert_eq!(lookup_course("f2a"), Ok(126));
    assert_eq!(lookup_course("Fundies2Accel"), Ok(126));
    assert_eq!(lookup_course("cs2500"), Ok(131));
    assert_eq!(lookup_course("OOD"), Ok(138));
    assert_eq!(lookup_course("oodsp21"), Ok(133));
    assert_eq!(lookup_course("compilers"), Ok(127));
    assert_eq!(lookup_course("swdev"), Ok(130));
}

#[test]
fn course_lookup_unknown_name() {
    assert_eq!(lookup_course("cs9999"), Err("Course not found"));
    assert_eq!(lookup_course(""), Err("Course not found"));
}

#[test]
fn whitespace_stripping() {
    assert_eq!(remove_whitespace(" h w 2 "), "hw2");
    assert_eq!(remove_whitespace("hw2"), "hw2");
    assert_eq!(remove_whitespace("\t a\u{a0}b \n"), "ab");
    assert_eq!(remove_whitespace("   "), "");
}

#[test]
fn error_messages() {
    assert_eq!(
        EngineError::UserAborted.message(),
        "not submitting assignment, shutting down"
    );
    assert_eq!(
        EngineError::EmptyCandidateSet.message(),
        "all assignments have been graded!"
    );
    assert_eq!(
        EngineError::NoMatch.message(),
        "assignment name didn't match any assignments!"
    );
    assert_eq!(
        EngineError::ExhaustedCandidates.message(),
        "couldn't find the right assignment, shutting down"
    );
}
