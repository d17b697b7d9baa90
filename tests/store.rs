use contest_tester::store::{case_file_names, case_files, leading_run, short_name, Problem, TestCase};

#[test]
fn short_name_takes_leading_alphanumerics() {
    assert_eq!(short_name("A. Foo Bar"), "A");
    assert_eq!(short_name("123abc!"), "123abc");
    assert_eq!(short_name("!!!"), "");
    assert_eq!(short_name(""), "");
    assert_eq!(short_name("Été1 x"), "Été1");
}

#[test]
fn leading_run_counts_leading_true() {
    assert_eq!(leading_run(&vec![]), 0);
    assert_eq!(leading_run(&vec![true, true, false, true]), 2);
    assert_eq!(leading_run(&vec![false, true]), 0);
    assert_eq!(leading_run(&vec![true, true]), 2);
}

#[test]
fn case_file_names_follow_the_convention() {
    assert_eq!(
        case_file_names("A", 1),
        ("A-1.in".to_string(), "A-1.out".to_string())
    );
    assert_eq!(
        case_file_names("B2", 1234),
        ("B2-1234.in".to_string(), "B2-1234.out".to_string())
    );
    assert_eq!(case_file_names("", 0).0, "-0.in");
    assert_eq!(case_file_names("C", 10).1, "C-10.out");
}

#[test]
fn case_files_pair_each_case_in_order() {
    let problem = Problem {
        name: "D. Some Problem".to_string(),
        tests: vec![
            TestCase { input: "1\n".to_string(), output: "2\n".to_string() },
            TestCase { input: "3\n".to_string(), output: "4\n".to_string() },
        ],
    };
    let files = case_files(&problem);
    let got: Vec<(String, String)> = files.into_iter().map(|f| (f.path, f.contents)).collect();
    assert_eq!(
        got,
        vec![
            ("D-1.in".to_string(), "1\n".to_string()),
            ("D-1.out".to_string(), "2\n".to_string()),
            ("D-2.in".to_string(), "3\n".to_string()),
            ("D-2.out".to_string(), "4\n".to_string()),
        ]
    );
}

#[test]
fn case_files_of_a_problem_without_cases() {
    let problem = Problem { name: "E".to_string(), tests: vec![] };
    assert!(case_files(&problem).is_empty());
}
