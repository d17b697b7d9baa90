//! Running a solution over a problem's cases: where the cases are found, how
//! each run is judged and reported, and how the verdicts add up.

use vstd::prelude::*;
use vstd::utf8::{decode_utf8, valid_utf8};

use crate::compare::{compare_lenient, lenient_eq};
use crate::text::{chars_of, decimal, push_decimal};

verus! {

/// The views of a sequence of strings.
pub open spec fn string_views(v: Seq<String>) -> Seq<Seq<char>> {
    v.map_values(|s: String| s@)
}

/// The glob pattern that finds the input files of the problem with short name
/// `short`: `{short}-*.in`.
pub fn case_pattern(short: &str) -> (r: String)
    ensures
        r@ == short@ + "-*.in"@,
{
    let mut r = short.to_owned();
    r.append("-*.in");
    r
}

/// The expected-output file that goes with the input file `input`: the same
/// path with a final `.in` replaced by `.out`, or with `.out` added where it
/// does not end in `.in`.
pub open spec fn output_path_for(input: Seq<char>) -> Seq<char> {
    let n = input.len();
    if n >= 3 && input.subrange(n - 3, n as int) == seq!['.', 'i', 'n'] {
        input.take(n - 3) + seq!['.', 'o', 'u', 't']
    } else {
        input + seq!['.', 'o', 'u', 't']
    }
}

/// The path of the expected-output file for the input file `input`.
pub fn expected_output_path(input: &str) -> (r: String)
    ensures
        r@ == output_path_for(input@),
{
    let cs = chars_of(input);
    let n = cs.len();
    let has_in = n >= 3 && cs[n - 3] == '.' && cs[n - 2] == 'i' && cs[n - 1] == 'n';
    let mut r = if has_in {
        input.substring_char(0, n - 3).to_owned()
    } else {
        input.to_owned()
    };
    if n >= 3 {
        assert(has_in == (input@.subrange(n - 3, n as int) =~= seq!['.', 'i', 'n']));
    }
    r.append(".out");
    proof {
        reveal_strlit(".out");
    }
    assert(r@ =~= output_path_for(input@));
    r
}

/// Relies on `String::from_utf8`: it succeeds exactly when `bytes` are valid
/// UTF-8, and then holds the characters that they encode.
#[verifier::external_body]
fn utf8_text(bytes: Vec<u8>) -> (r: Option<String>)
    ensures
        r is Some <==> valid_utf8(bytes@),
        r matches Some(s) ==> s@ == decode_utf8(bytes@),
{
    String::from_utf8(bytes).ok()
}

/// What a solution printed on one case, as text, and whether it passed.
pub struct Judgement {
    pub passed: bool,
    pub output: String,
}

/// Judges one case from the bytes that the solution printed and the expected
/// output: `None` where those bytes are not UTF-8 text; else their text, and
/// whether it matches the expected output under lenient comparison.
pub fn judge_output(stdout: Vec<u8>, expected: &str) -> (r: Option<Judgement>)
    ensures
        r is Some <==> valid_utf8(stdout@),
        r matches Some(j) ==> j.output@ == decode_utf8(stdout@) && j.passed == lenient_eq(
            decode_utf8(stdout@),
            expected@,
        ),
{
    match utf8_text(stdout) {
        Some(text) => {
            let passed = compare_lenient(text.as_str(), expected);
            Some(Judgement { passed, output: text })
        },
        None => None,
    }
}

/// The line announcing that the case read from `input_path` is run.
pub fn case_heading(input_path: &str) -> (r: String)
    ensures
        r@ == "Testing case "@ + input_path@ + ":"@,
{
    let mut r = String::from_str("Testing case ");
    r.append(input_path);
    r.append(":");
    r
}

/// The report on one case, line by line.
pub open spec fn case_report_spec(
    passed: bool,
    input: Seq<char>,
    output: Seq<char>,
    expected: Seq<char>,
) -> Seq<Seq<char>> {
    if passed {
        seq!["PASSED"@]
    } else {
        seq!["FAILED"@, "Input:"@, input, "Output:"@, output, "Expected:"@, expected]
    }
}

/// The lines reported once a case is judged: a pass marker, or a fail marker
/// followed by the case's input, the solution's output and the expected
/// output, each under its heading. The texts are shown only on failure.
pub fn case_report(passed: bool, input: &str, output: &str, expected: &str) -> (r: Vec<String>)
    ensures
        string_views(r@) == case_report_spec(passed, input@, output@, expected@),
{
    let mut r: Vec<String> = Vec::new();
    if passed {
        r.push(String::from_str("PASSED"));
    } else {
        r.push(String::from_str("FAILED"));
        r.push(String::from_str("Input:"));
        r.push(input.to_owned());
        r.push(String::from_str("Output:"));
        r.push(output.to_owned());
        r.push(String::from_str("Expected:"));
        r.push(expected.to_owned());
    }
    assert(string_views(r@) =~= case_report_spec(passed, input@, output@, expected@));
    r
}

/// How one case ended: its output matched, it did not, or the case could not
/// be run to a verdict (a file could not be read, the solution could not be
/// started, or its output was not text).
#[derive(Clone, Copy, Debug, PartialEq, Eq, Structural)]
pub enum CaseOutcome {
    Passed,
    Failed,
    Error,
}

/// How many of `outcomes` are `o`.
pub open spec fn count_of(outcomes: Seq<CaseOutcome>, o: CaseOutcome) -> nat
    decreases outcomes.len(),
{
    if outcomes.len() == 0 {
        0
    } else {
        count_of(outcomes.drop_last(), o) + if outcomes.last() == o {
            1nat
        } else {
            0nat
        }
    }
}

/// The counts of a run: the cases found, those that passed, and those that
/// could not be run to a verdict.
pub struct RunTally {
    pub total: usize,
    pub passed: usize,
    pub errors: usize,
}

impl RunTally {
    /// Passed and errored cases are distinct cases among those found.
    pub open spec fn wf(self) -> bool {
        self.passed + self.errors <= self.total
    }

    /// Whether every case was found to pass, and there was at least one.
    pub open spec fn all_clear_spec(self) -> bool {
        self.passed == self.total && self.total > 0 && self.errors == 0
    }

    /// The summary printed at the end of a run, line by line.
    pub open spec fn summary_spec(self) -> Seq<Seq<char>> {
        let counts = seq![
            "Passed "@ + decimal(self.passed as nat) + "/"@ + decimal(self.total as nat)
                + " cases."@,
        ];
        let errors = if self.errors > 0 {
            seq!["Error processing "@ + decimal(self.errors as nat) + " cases."@]
        } else {
            Seq::<Seq<char>>::empty()
        };
        let clear = if self.all_clear_spec() {
            seq!["Congratulations! All tests passed."@]
        } else {
            Seq::<Seq<char>>::empty()
        };
        counts + errors + clear
    }

    /// The tally of a run that has found no case yet.
    pub fn new() -> (r: RunTally)
        ensures
            r.wf(),
            r.total == 0,
            r.passed == 0,
            r.errors == 0,
    {
        RunTally { total: 0, passed: 0, errors: 0 }
    }

    /// Counts one more case, which ended with `outcome`.
    pub fn record(&mut self, outcome: CaseOutcome)
        requires
            old(self).wf(),
            old(self).total < usize::MAX,
        ensures
            final(self).wf(),
            final(self).total == old(self).total + 1,
            final(self).passed == old(self).passed + if outcome == CaseOutcome::Passed {
                1int
            } else {
                0int
            },
            final(self).errors == old(self).errors + if outcome == CaseOutcome::Error {
                1int
            } else {
                0int
            },
    {
        self.total = self.total + 1;
        match outcome {
            CaseOutcome::Passed => {
                self.passed = self.passed + 1;
            },
            CaseOutcome::Failed => {},
            CaseOutcome::Error => {
                self.errors = self.errors + 1;
            },
        }
    }

    /// Whether the run deserves the all-clear message: every case found
    /// passed, none errored, and at least one was found.
    pub fn all_clear(&self) -> (r: bool)
        ensures
            r == self.all_clear_spec(),
    {
        self.passed == self.total && self.total > 0 && self.errors == 0
    }

    /// The summary of the run: the passed and total counts, then the number of
    /// cases that errored if there were any, then the all-clear message if it
    /// is deserved.
    pub fn summary_lines(&self) -> (r: Vec<String>)
        ensures
            string_views(r@) == self.summary_spec(),
    {
        let mut r: Vec<String> = Vec::new();
        let mut counts = String::from_str("Passed ");
        push_decimal(&mut counts, self.passed);
        counts.append("/");
        push_decimal(&mut counts, self.total);
        counts.append(" cases.");
        r.push(counts);
        if self.errors > 0 {
            let mut errors = String::from_str("Error processing ");
            push_decimal(&mut errors, self.errors);
            errors.append(" cases.");
            r.push(errors);
        }
        if self.all_clear() {
            r.push(String::from_str("Congratulations! All tests passed."));
        }
        assert(string_views(r@) =~= self.summary_spec());
        r
    }
}

/// The tally of a run whose cases ended with `outcomes`, in any order.
pub fn tally(outcomes: &Vec<CaseOutcome>) -> (t: RunTally)
    ensures
        t.wf(),
        t.total == outcomes.len(),
        t.passed == count_of(outcomes@, CaseOutcome::Passed),
        t.errors == count_of(outcomes@, CaseOutcome::Error),
{
    let mut t = RunTally::new();
    let mut i: usize = 0;
    while i < outcomes.len()
        invariant
            i <= outcomes.len(),
            t.wf(),
            t.total == i,
            t.passed == count_of(outcomes@.take(i as int), CaseOutcome::Passed),
            t.errors == count_of(outcomes@.take(i as int), CaseOutcome::Error),
        decreases outcomes.len() - i,
    {
        assert(outcomes@.take(i + 1).drop_last() =~= outcomes@.take(i as int));
        t.record(outcomes[i]);
        i = i + 1;
    }
    assert(outcomes@.take(i as int) =~= outcomes@);
    t
}

} // verus!
