//! Lenient comparison of a program's output with the expected output.

use itertools::{EitherOrBoth, Itertools};
use vstd::prelude::*;

use crate::text::{
    chars_of, lemma_lines_within_segments, lines, segments, split_lines, trim, trim_chars,
    trim_end, trim_start, trimmed_lines, views,
};

verus! {

/// The line at position `i` of `ls`, if there is one.
pub open spec fn line_at(ls: Seq<Seq<char>>, i: int) -> Option<Seq<char>> {
    if 0 <= i < ls.len() {
        Some(ls[i])
    } else {
        None
    }
}

/// Whether two lines standing at one position agree: equal where both are
/// present, empty where only one is.
pub open spec fn lines_match(l: Option<Seq<char>>, r: Option<Seq<char>>) -> bool {
    match (l, r) {
        (Some(x), Some(y)) => x == y,
        (Some(x), None) => x.len() == 0,
        (None, Some(y)) => y.len() == 0,
        (None, None) => true,
    }
}

/// The longer of two lengths.
pub open spec fn longer(a: nat, b: nat) -> nat {
    if a >= b {
        a
    } else {
        b
    }
}

/// Whether two texts are equal line by line once every line is trimmed, where
/// lines past the end of the shorter text must be blank.
pub open spec fn lenient_eq(left: Seq<char>, right: Seq<char>) -> bool {
    let a = trimmed_lines(left);
    let b = trimmed_lines(right);
    forall|i: int|
        0 <= i < longer(a.len(), b.len()) ==> #[trigger] lines_match(line_at(a, i), line_at(b, i))
}

/// Relies on `Itertools::zip_longest`: it walks both sequences together up to
/// the longer length and tells, at each position, which of the two still has
/// an item.
#[verifier::external_body]
fn zip_longest_lines(a: Vec<Vec<char>>, b: Vec<Vec<char>>) -> (r: Vec<
    (Option<Vec<char>>, Option<Vec<char>>),
>)
    ensures
        r.len() == longer(a.len() as nat, b.len() as nat),
        forall|i: int|
            0 <= i < r.len() ==> #[trigger] r[i].0 == (if i < a.len() {
                Some(a[i])
            } else {
                None
            }) && r[i].1 == (if i < b.len() {
                Some(b[i])
            } else {
                None
            }),
{
    a.into_iter().zip_longest(b).map(|e| match e {
        EitherOrBoth::Both(l, r) => (Some(l), Some(r)),
        EitherOrBoth::Left(l) => (Some(l), None),
        EitherOrBoth::Right(r) => (None, Some(r)),
    }).collect()
}

/// Whether two character vectors hold the same characters.
fn same_chars(a: &Vec<char>, b: &Vec<char>) -> (r: bool)
    ensures
        r == (a@ == b@),
{
    if a.len() != b.len() {
        return false;
    }
    let mut i: usize = 0;
    while i < a.len()
        invariant
            i <= a.len() == b.len(),
            forall|k: int| 0 <= k < i ==> a@[k] == b@[k],
        decreases a.len() - i,
    {
        if a[i] != b[i] {
            return false;
        }
        i = i + 1;
    }
    assert(a@ =~= b@);
    true
}

/// The lines of `s`, each without leading and trailing whitespace.
pub fn trimmed_lines_of(s: &str) -> (r: Vec<Vec<char>>)
    ensures
        views(r@) == trimmed_lines(s@),
{
    let cs = chars_of(s);
    let ls = split_lines(&cs);
    let mut r: Vec<Vec<char>> = Vec::new();
    let mut i: usize = 0;
    while i < ls.len()
        invariant
            i <= ls.len(),
            r.len() == i,
            forall|k: int| 0 <= k < i ==> #[trigger] r@[k]@ == trim(ls@[k]@),
        decreases ls.len() - i,
    {
        let t = trim_chars(&ls[i]);
        r.push(t);
        i = i + 1;
    }
    assert(views(r@) =~= trimmed_lines(s@));
    r
}

/// Compares two outputs line by line, ignoring whitespace at the start and end
/// of each line; a blank line past the end of the other output is ignored too.
pub fn compare_lenient(left: &str, right: &str) -> (r: bool)
    ensures
        r == lenient_eq(left@, right@),
{
    let a = trimmed_lines_of(left);
    let b = trimmed_lines_of(right);
    let ghost ga = trimmed_lines(left@);
    let ghost gb = trimmed_lines(right@);
    let ghost va = a@;
    let ghost vb = b@;
    let pairs = zip_longest_lines(a, b);
    let mut i: usize = 0;
    while i < pairs.len()
        invariant
            i <= pairs.len() == longer(ga.len(), gb.len()),
            ga == trimmed_lines(left@),
            gb == trimmed_lines(right@),
            views(va) == ga,
            views(vb) == gb,
            forall|j: int|
                0 <= j < pairs.len() ==> #[trigger] pairs[j].0 == (if j < va.len() {
                    Some(va[j])
                } else {
                    None
                }) && pairs[j].1 == (if j < vb.len() {
                    Some(vb[j])
                } else {
                    None
                }),
            forall|j: int| 0 <= j < i ==> #[trigger] lines_match(line_at(ga, j), line_at(gb, j)),
        decreases pairs.len() - i,
    {
        let ok = match &pairs[i] {
            (Some(l), Some(r)) => same_chars(l, r),
            (Some(l), None) => l.len() == 0,
            (None, Some(r)) => r.len() == 0,
            (None, None) => true,
        };
        assert(i < va.len() ==> ga[i as int] == va[i as int]@);
        assert(i < vb.len() ==> gb[i as int] == vb[i as int]@);
        if !ok {
            assert(!lines_match(line_at(ga, i as int), line_at(gb, i as int)));
            assert(!lenient_eq(left@, right@));
            return false;
        }
        i = i + 1;
    }
    true
}

/// Every text compares equal to itself.
pub proof fn lemma_compare_reflexive(s: Seq<char>)
    ensures
        lenient_eq(s, s),
{
    let a = trimmed_lines(s);
    assert forall|i: int| 0 <= i < longer(a.len(), a.len()) implies #[trigger] lines_match(
        line_at(a, i),
        line_at(a, i),
    ) by {}
}

proof fn lemma_trim_empty()
    ensures
        trim(Seq::<char>::empty()) == Seq::<char>::empty(),
{
    assert(trim_start(Seq::<char>::empty()) == Seq::<char>::empty());
    assert(trim_end(Seq::<char>::empty()) == Seq::<char>::empty());
}

/// Appending a line feed to a text leaves it equal to itself under
/// lenient comparison.
pub proof fn lemma_trailing_line_feed_ignored(e: Seq<char>)
    ensures
        lenient_eq(e, e + seq!['\n']),
{
    let f = e + seq!['\n'];
    assert(f.drop_last() =~= e);
    assert(segments(f) == segments(e).push(Seq::<char>::empty()));
    assert(lines(f) =~= segments(e));
    lemma_lines_within_segments(e);
    lemma_trim_empty();
    let a = trimmed_lines(e);
    let b = trimmed_lines(f);
    assert forall|i: int| 0 <= i < longer(a.len(), b.len()) implies #[trigger] lines_match(
        line_at(a, i),
        line_at(b, i),
    ) by {
        if i >= a.len() {
            assert(i == segments(e).len() - 1);
            assert(segments(e).last().len() == 0);
        }
    }
}

/// Appending a line feed and a line with content to a text makes it differ
/// from the unchanged text under lenient comparison.
pub proof fn lemma_trailing_content_rejected(e: Seq<char>)
    ensures
        !lenient_eq(e, e + seq!['\n', '7']),
{
    let f = e + seq!['\n'];
    let g = e + seq!['\n', '7'];
    assert(f.drop_last() =~= e);
    assert(g.drop_last() =~= f);
    assert(segments(f) == segments(e).push(Seq::<char>::empty()));
    assert(segments(g) =~= segments(e).push(seq!['7']));
    let n = segments(e).len() as int;
    assert(lines(g) == segments(g));
    lemma_lines_within_segments(e);
    let seven = seq!['7'];
    assert(seven.drop_first() =~= Seq::<char>::empty());
    assert(seven.drop_last() =~= Seq::<char>::empty());
    assert(trim_start(seven) == seven);
    assert(trim_end(seven) == seven);
    let a = trimmed_lines(e);
    let b = trimmed_lines(g);
    assert(b[n] == seven);
    assert(!lines_match(line_at(a, n), line_at(b, n)));
}

} // verus!
