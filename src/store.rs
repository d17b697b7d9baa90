//! Where a problem's sample cases are kept: the short name derived from the
//! problem's title, and the pair of files written for each case.

use vstd::prelude::*;

use crate::text::{chars_of, decimal, push_decimal};

verus! {

/// Whether `c` is alphabetic or numeric in the Unicode sense.
pub uninterp spec fn alphanumeric(c: char) -> bool;

/// Relies on `char::is_alphanumeric`: whether `c` has the Unicode
/// `Alphabetic` or `Numeric` property, which depends on `c` alone.
#[verifier::external_body]
fn is_alphanumeric(c: char) -> (r: bool)
    ensures
        r == alphanumeric(c),
{
    c.is_alphanumeric()
}

/// The longest run of alphanumeric characters at the start of `name`.
pub open spec fn short_name_of(name: Seq<char>) -> Seq<char>
    decreases name.len(),
{
    if name.len() > 0 && alphanumeric(name[0]) {
        seq![name[0]] + short_name_of(name.drop_first())
    } else {
        Seq::<char>::empty()
    }
}

/// The number of leading `true` entries of `flags`.
pub fn leading_run(flags: &Vec<bool>) -> (n: usize)
    ensures
        n <= flags.len(),
        forall|k: int| 0 <= k < n ==> flags@[k],
        n < flags.len() ==> !flags@[n as int],
{
    let mut n: usize = 0;
    while n < flags.len() && flags[n]
        invariant
            n <= flags.len(),
            forall|k: int| 0 <= k < n ==> flags@[k],
        decreases flags.len() - n,
    {
        n = n + 1;
    }
    n
}

proof fn lemma_short_name_prefix(name: Seq<char>, n: int)
    requires
        0 <= n <= name.len(),
        forall|k: int| 0 <= k < n ==> alphanumeric(#[trigger] name[k]),
        n < name.len() ==> !alphanumeric(name[n]),
    ensures
        short_name_of(name) == name.take(n),
    decreases n,
{
    if n > 0 {
        let rest = name.drop_first();
        assert forall|k: int| 0 <= k < n - 1 implies alphanumeric(#[trigger] rest[k]) by {
            assert(rest[k] == name[k + 1]);
        }
        lemma_short_name_prefix(rest, n - 1);
        assert(name.take(n) =~= seq![name[0]] + rest.take(n - 1));
    } else {
        assert(name.take(0) =~= Seq::<char>::empty());
    }
}

/// The short name of a problem: the alphanumeric characters at the start of
/// its name, up to the first other character.
pub fn short_name(name: &str) -> (r: String)
    ensures
        r@ == short_name_of(name@),
{
    let cs = chars_of(name);
    let mut flags: Vec<bool> = Vec::new();
    let mut i: usize = 0;
    while i < cs.len()
        invariant
            i <= cs.len(),
            cs@ == name@,
            flags.len() == i,
            forall|k: int| 0 <= k < i ==> #[trigger] flags@[k] == alphanumeric(cs@[k]),
        decreases cs.len() - i,
    {
        flags.push(is_alphanumeric(cs[i]));
        i = i + 1;
    }
    let n = leading_run(&flags);
    proof {
        assert forall|k: int| 0 <= k < n implies alphanumeric(#[trigger] name@[k]) by {
            assert(flags@[k]);
        }
        lemma_short_name_prefix(name@, n as int);
    }
    name.substring_char(0, n).to_owned()
}

/// The name of the file that holds the input of case `index` (counted from
/// one) of the problem with short name `short`: `{short}-{index}.in`.
pub open spec fn input_file_name(short: Seq<char>, index: nat) -> Seq<char> {
    short + seq!['-'] + decimal(index) + seq!['.', 'i', 'n']
}

/// The name of the file that holds the expected output of case `index` of the
/// problem with short name `short`: `{short}-{index}.out`.
pub open spec fn output_file_name(short: Seq<char>, index: nat) -> Seq<char> {
    short + seq!['-'] + decimal(index) + seq!['.', 'o', 'u', 't']
}

/// The names of the input and the expected-output file of case `index`
/// (counted from one) of the problem with short name `short`.
pub fn case_file_names(short: &str, index: usize) -> (r: (String, String))
    ensures
        r.0@ == input_file_name(short@, index as nat),
        r.1@ == output_file_name(short@, index as nat),
{
    let mut stem = short.to_owned();
    stem.append("-");
    push_decimal(&mut stem, index);
    let mut input = stem.clone();
    let mut output = stem;
    input.append(".in");
    output.append(".out");
    proof {
        reveal_strlit("-");
        reveal_strlit(".in");
        reveal_strlit(".out");
    }
    assert(input@ =~= input_file_name(short@, index as nat));
    assert(output@ =~= output_file_name(short@, index as nat));
    (input, output)
}

/// One sample case of a problem: the text fed to a solution and the text it
/// should print.
pub struct TestCase {
    pub input: String,
    pub output: String,
}

/// A problem as received: its display name and its sample cases in order.
pub struct Problem {
    pub name: String,
    pub tests: Vec<TestCase>,
}

/// A file to be written: where, and what it holds.
pub struct CaseFile {
    pub path: String,
    pub contents: String,
}

/// The files that keep the sample cases of `problem`: for each case, in
/// order, its input file and then its expected-output file, named after the
/// problem's short name and the case's position counted from one.
pub fn case_files(problem: &Problem) -> (r: Vec<CaseFile>)
    ensures
        r.len() == 2 * problem.tests.len(),
        forall|i: int|
            0 <= i < problem.tests.len() ==> {
                &&& (#[trigger] r[2 * i]).path@ == input_file_name(
                    short_name_of(problem.name@),
                    (i + 1) as nat,
                )
                &&& r[2 * i].contents@ == problem.tests[i].input@
                &&& r[2 * i + 1].path@ == output_file_name(
                    short_name_of(problem.name@),
                    (i + 1) as nat,
                )
                &&& r[2 * i + 1].contents@ == problem.tests[i].output@
            },
{
    let short = short_name(problem.name.as_str());
    let mut r: Vec<CaseFile> = Vec::new();
    let mut i: usize = 0;
    while i < problem.tests.len()
        invariant
            i <= problem.tests.len(),
            short@ == short_name_of(problem.name@),
            r.len() == 2 * i,
            forall|k: int|
                0 <= k < i ==> {
                    &&& (#[trigger] r[2 * k]).path@ == input_file_name(short@, (k + 1) as nat)
                    &&& r[2 * k].contents@ == problem.tests[k].input@
                    &&& r[2 * k + 1].path@ == output_file_name(short@, (k + 1) as nat)
                    &&& r[2 * k + 1].contents@ == problem.tests[k].output@
                },
        decreases problem.tests.len() - i,
    {
        let (input_path, output_path) = case_file_names(short.as_str(), i + 1);
        let case = &problem.tests[i];
        r.push(CaseFile { path: input_path, contents: case.input.clone() });
        r.push(CaseFile { path: output_path, contents: case.output.clone() });
        i = i + 1;
    }
    r
}

} // verus!
