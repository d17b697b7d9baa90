use contest_tester::runner::{
    case_heading, case_pattern, case_report, expected_output_path, judge_output, tally,
    CaseOutcome, RunTally,
};

#[test]
fn pattern_and_paths() {
    assert_eq!(case_pattern("P"), "P-*.in");
    assert_eq!(expected_output_path("P-1.in"), "P-1.out");
    assert_eq!(expected_output_path("dir/P-12.in"), "dir/P-12.out");
    assert_eq!(expected_output_path("noext"), "noext.out");
    assert_eq!(expected_output_path("in"), "in.out");
}

fn verdict(stdout: Vec<u8>, expected: &str) -> Option<(bool, String)> {
    judge_output(stdout, expected).map(|j| (j.passed, j.output))
}

#[test]
fn judgement_from_output_bytes() {
    assert_eq!(
        verdict(b"5\n1 2 3\n4 5 6\n".to_vec(), "5\n1 2 3\n4 5 6"),
        Some((true, "5\n1 2 3\n4 5 6\n".to_string()))
    );
    assert_eq!(
        verdict(b"5\n1 2 3\n4 4 6\n".to_vec(), "5\n1 2 3\n4 5 6"),
        Some((false, "5\n1 2 3\n4 4 6\n".to_string()))
    );
    assert_eq!(verdict("\u{e9}\n".as_bytes().to_vec(), "\u{e9}"), Some((true, "\u{e9}\n".to_string())));
    assert_eq!(verdict(vec![b'a', 0xff], "a"), None);
    assert_eq!(verdict(vec![], ""), Some((true, String::new())));
}

#[test]
fn reports_on_a_case() {
    assert_eq!(case_heading("P-1.in"), "Testing case P-1.in:");
    assert_eq!(case_report(true, "in", "out", "exp"), vec!["PASSED".to_string()]);
    assert_eq!(
        case_report(false, "1 2\n", "3\n", "4\n"),
        vec!["FAILED", "Input:", "1 2\n", "Output:", "3\n", "Expected:", "4\n"]
            .into_iter()
            .map(String::from)
            .collect::<Vec<_>>()
    );
}

#[test]
fn run_with_pass_fail_and_error() {
    let t = tally(&vec![CaseOutcome::Passed, CaseOutcome::Failed, CaseOutcome::Error]);
    assert_eq!((t.total, t.passed, t.errors), (3, 1, 1));
    assert!(!t.all_clear());
    assert_eq!(
        t.summary_lines(),
        vec!["Passed 1/3 cases.".to_string(), "Error processing 1 cases.".to_string()]
    );
}

#[test]
fn run_with_no_cases_is_not_all_clear() {
    let t = tally(&vec![]);
    assert_eq!((t.total, t.passed, t.errors), (0, 0, 0));
    assert!(!t.all_clear());
    assert_eq!(t.summary_lines(), vec!["Passed 0/0 cases.".to_string()]);
}

#[test]
fn run_where_everything_passes() {
    let t = tally(&vec![CaseOutcome::Passed; 12]);
    assert!(t.all_clear());
    assert_eq!(
        t.summary_lines(),
        vec![
            "Passed 12/12 cases.".to_string(),
            "Congratulations! All tests passed.".to_string()
        ]
    );
}

#[test]
fn record_counts_one_case_at_a_time() {
    let mut t = RunTally::new();
    t.record(CaseOutcome::Failed);
    assert_eq!((t.total, t.passed, t.errors), (1, 0, 0));
    t.record(CaseOutcome::Passed);
    t.record(CaseOutcome::Error);
    assert_eq!((t.total, t.passed, t.errors), (3, 1, 1));
    assert!(!t.all_clear());
}

#[test]
fn errors_alone_prevent_the_all_clear() {
    let t = RunTally { total: 2, passed: 2, errors: 0 };
    assert!(t.all_clear());
    let t = RunTally { total: 2, passed: 1, errors: 1 };
    assert!(!t.all_clear());
}
