//! Reading the resource monitor's samples: the CPU and memory fields of one
//! `top -b -n 1` report, and the spread of the memory readings.

use vstd::prelude::*;
use crate::task::{from_utf8_lossy, utf8_lossy};
use crate::text::{
    occurs_at, chars_of, contains, lines, spec_contains, spec_lines, spec_starts_with, spec_words,
    starts_with, string_of, words,
};

verus! {

/// Whether `line` holds `pat`: at its start if `at_start`, anywhere otherwise.
pub open spec fn line_matches(line: Seq<char>, pat: Seq<char>, at_start: bool) -> bool {
    if at_start {
        spec_starts_with(line, pat)
    } else {
        spec_contains(line, pat)
    }
}

/// The first of `lines` that holds `pat` (see `line_matches`).
pub open spec fn first_line_where(lines: Seq<Seq<char>>, pat: Seq<char>, at_start: bool) -> Option<
    Seq<char>,
>
    decreases lines.len(),
{
    if lines.len() == 0 {
        None
    } else if line_matches(lines[0], pat, at_start) {
        Some(lines[0])
    } else {
        first_line_where(lines.drop_first(), pat, at_start)
    }
}

/// The marker of `top`'s CPU line.
pub open spec fn cpu_marker() -> Seq<char> {
    seq!['%', 'C', 'p', 'u', '(', 's', ')', ':']
}

/// The marker of `top`'s memory line.
pub open spec fn mem_marker() -> Seq<char> {
    seq!['M', 'i', 'B', ' ', 'M', 'e', 'm']
}

/// What stands for a field that the report does not give.
pub open spec fn not_available() -> Seq<char> {
    seq!['N', '/', 'A']
}

/// The CPU usage read from a `top` report: the first line that starts with
/// `%Cpu(s):`, if it has more than three words, gives its second and fourth
/// words (user and system time) joined by `", "`; otherwise `N/A`.
pub open spec fn spec_cpu_usage(report: Seq<char>) -> Seq<char> {
    match first_line_where(spec_lines(report), cpu_marker(), true) {
        Some(line) => {
            let w = spec_words(line);
            if w.len() > 3 {
                w[1] + seq![',', ' '] + w[3]
            } else {
                not_available()
            }
        },
        None => not_available(),
    }
}

/// The available-memory field of a `top` report: the eighth word of the
/// first line that contains `MiB Mem`, if that line has more than seven.
pub open spec fn spec_mem_field(report: Seq<char>) -> Option<Seq<char>> {
    match first_line_where(spec_lines(report), mem_marker(), false) {
        Some(line) => {
            let w = spec_words(line);
            if w.len() > 7 {
                Some(w[7])
            } else {
                None
            }
        },
        None => None,
    }
}


proof fn lemma_first_line_where_at(lines: Seq<Seq<char>>, pat: Seq<char>, at_start: bool, j: int)
    requires
        0 <= j < lines.len(),
        line_matches(lines[j], pat, at_start),
        forall|k: int| 0 <= k < j ==> !line_matches(#[trigger] lines[k], pat, at_start),
    ensures
        first_line_where(lines, pat, at_start) == Some(lines[j]),
    decreases j,
{
    if j > 0 {
        assert(!line_matches(lines[0], pat, at_start));
        let rest = lines.drop_first();
        assert forall|k: int| 0 <= k < j - 1 implies !line_matches(#[trigger] rest[k], pat, at_start) by {
            assert(rest[k] == lines[k + 1]);
        }
        lemma_first_line_where_at(rest, pat, at_start, j - 1);
    }
}

proof fn lemma_first_line_where_none(lines: Seq<Seq<char>>, pat: Seq<char>, at_start: bool)
    requires
        forall|k: int| 0 <= k < lines.len() ==> !line_matches(#[trigger] lines[k], pat, at_start),
    ensures
        first_line_where(lines, pat, at_start) is None,
    decreases lines.len(),
{
    if lines.len() > 0 {
        assert(!line_matches(lines[0], pat, at_start));
        let rest = lines.drop_first();
        assert forall|k: int| 0 <= k < rest.len() implies !line_matches(#[trigger] rest[k], pat, at_start) by {
            assert(rest[k] == lines[k + 1]);
        }
        lemma_first_line_where_none(rest, pat, at_start);
    }
}

/// Whether `line` begins with `%Cpu(s):`.
pub open spec fn begins_cpu_line(line: Seq<char>) -> bool {
    line.len() >= 8 && line.subrange(0, 8) == seq!['%', 'C', 'p', 'u', '(', 's', ')', ':']
}

/// Whether `MiB Mem` occurs somewhere in `line`.
pub open spec fn holds_mem_marker(line: Seq<char>) -> bool {
    exists|i: int|
        0 <= i && i + 7 <= line.len() && #[trigger] line.subrange(i, i + 7) == seq![
            'M',
            'i',
            'B',
            ' ',
            'M',
            'e',
            'm',
        ]
}

/// The CPU usage comes from the first line of the report that begins with
/// `%Cpu(s):`: its second and fourth words, each whole, joined by `", "`, or
/// `N/A` where that line has no more than three words.
pub proof fn lemma_cpu_usage_from_first_cpu_line(report: Seq<char>, j: int)
    requires
        0 <= j < spec_lines(report).len(),
        begins_cpu_line(spec_lines(report)[j]),
        forall|k: int| 0 <= k < j ==> !begins_cpu_line(#[trigger] spec_lines(report)[k]),
    ensures
        ({
            let w = spec_words(spec_lines(report)[j]);
            &&& w.len() > 3 ==> spec_cpu_usage(report) == w[1] + seq![',', ' '] + w[3]
            &&& w.len() <= 3 ==> spec_cpu_usage(report) == seq!['N', '/', 'A']
        }),
{
    let ls = spec_lines(report);
    assert(seq!['%', 'C', 'p', 'u', '(', 's', ')', ':'] =~= cpu_marker());
    assert forall|k: int| 0 <= k < j implies !line_matches(#[trigger] ls[k], cpu_marker(), true) by {
        assert(!begins_cpu_line(ls[k]));
    }
    lemma_first_line_where_at(ls, cpu_marker(), true, j);
}

/// A report in which no line begins with `%Cpu(s):` gives `N/A`.
pub proof fn lemma_cpu_usage_without_cpu_line(report: Seq<char>)
    requires
        forall|k: int| 0 <= k < spec_lines(report).len() ==> !begins_cpu_line(#[trigger] spec_lines(report)[k]),
    ensures
        spec_cpu_usage(report) == seq!['N', '/', 'A'],
{
    let ls = spec_lines(report);
    assert(seq!['%', 'C', 'p', 'u', '(', 's', ')', ':'] =~= cpu_marker());
    assert forall|k: int| 0 <= k < ls.len() implies !line_matches(#[trigger] ls[k], cpu_marker(), true) by {
        assert(!begins_cpu_line(ls[k]));
    }
    lemma_first_line_where_none(ls, cpu_marker(), true);
}

proof fn lemma_mem_marker_matches(line: Seq<char>)
    ensures
        holds_mem_marker(line) <==> line_matches(line, mem_marker(), false),
{
    let lit = seq!['M', 'i', 'B', ' ', 'M', 'e', 'm'];
    assert(lit =~= mem_marker());
    if holds_mem_marker(line) {
        let i = choose|i: int|
            0 <= i && i + 7 <= line.len() && #[trigger] line.subrange(i, i + 7) == lit;
        assert(occurs_at(line, mem_marker(), i));
    }
    if line_matches(line, mem_marker(), false) {
        let i = choose|i: int| occurs_at(line, mem_marker(), i);
        assert(line.subrange(i, i + 7) == lit);
    }
}

/// The memory field is the eighth word, whole, of the first line of the
/// report that holds `MiB Mem`, where that line has more than seven words.
pub proof fn lemma_mem_field_from_first_mem_line(report: Seq<char>, j: int)
    requires
        0 <= j < spec_lines(report).len(),
        holds_mem_marker(spec_lines(report)[j]),
        forall|k: int| 0 <= k < j ==> !holds_mem_marker(#[trigger] spec_lines(report)[k]),
    ensures
        ({
            let w = spec_words(spec_lines(report)[j]);
            &&& w.len() > 7 ==> spec_mem_field(report) == Some(w[7])
            &&& w.len() <= 7 ==> spec_mem_field(report) is None
        }),
{
    let ls = spec_lines(report);
    lemma_mem_marker_matches(ls[j]);
    assert forall|k: int| 0 <= k < j implies !line_matches(#[trigger] ls[k], mem_marker(), false) by {
        lemma_mem_marker_matches(ls[k]);
    }
    lemma_first_line_where_at(ls, mem_marker(), false, j);
}

/// A report in which no line holds `MiB Mem` gives no memory field.
pub proof fn lemma_mem_field_without_mem_line(report: Seq<char>)
    requires
        forall|k: int| 0 <= k < spec_lines(report).len() ==> !holds_mem_marker(#[trigger] spec_lines(report)[k]),
    ensures
        spec_mem_field(report) is None,
{
    let ls = spec_lines(report);
    assert forall|k: int| 0 <= k < ls.len() implies !line_matches(#[trigger] ls[k], mem_marker(), false) by {
        lemma_mem_marker_matches(ls[k]);
    }
    lemma_first_line_where_none(ls, mem_marker(), false);
}

/// The index of the first line that holds `pat`, if any.
fn find_line(ls: &Vec<Vec<char>>, pat: &[char], at_start: bool) -> (res: Option<usize>)
    ensures
        res matches Some(i) ==> i < ls.len() && first_line_where(ls.deep_view(), pat@, at_start)
            == Some(ls.deep_view()[i as int]),
        res is None ==> first_line_where(ls.deep_view(), pat@, at_start) is None,
{
    let ghost all = ls.deep_view();
    let mut i: usize = 0;
    assert(all.skip(0) =~= all);
    while i < ls.len()
        invariant
            0 <= i <= ls.len(),
            all == ls.deep_view(),
            first_line_where(all, pat@, at_start) == first_line_where(
                all.skip(i as int),
                pat@,
                at_start,
            ),
        decreases ls.len() - i,
    {
        assert(ls@[i as int].deep_view() =~= ls@[i as int]@);
        assert(all.skip(i as int)[0] == all[i as int]);
        let hit = if at_start {
            starts_with(ls[i].as_slice(), pat)
        } else {
            contains(ls[i].as_slice(), pat)
        };
        if hit {
            return Some(i);
        }
        assert(all.skip(i as int).drop_first() =~= all.skip(i + 1));
        i = i + 1;
    }
    None
}

/// Reads the CPU usage from the standard output of `top -b -n 1`, decoded
/// leniently from UTF-8 (see `spec_cpu_usage`).
pub fn cpu_usage(stdout: &[u8]) -> (res: String)
    ensures
        res@ == spec_cpu_usage(utf8_lossy(stdout@)),
{
    let report = from_utf8_lossy(stdout);
    cpu_usage_of_text(report.as_str())
}

/// Reads the CPU usage from a `top -b -n 1` report (see `spec_cpu_usage`).
fn cpu_usage_of_text(report: &str) -> (res: String)
    ensures
        res@ == spec_cpu_usage(report@),
{
    let cs = chars_of(report);
    let ls = lines(cs.as_slice());
    let marker = vec!['%', 'C', 'p', 'u', '(', 's', ')', ':'];
    assert(marker@ =~= cpu_marker());
    let na = vec!['N', '/', 'A'];
    assert(na@ =~= not_available());
    match find_line(&ls, marker.as_slice(), true) {
        Some(i) => {
            assert(ls@[i as int].deep_view() =~= ls@[i as int]@);
            let w = words(ls[i].as_slice());
            if w.len() > 3 {
                assert(w@[1].deep_view() =~= w@[1]@);
                assert(w@[3].deep_view() =~= w@[3]@);
                let mut joined = w[1].clone();
                joined.push(',');
                joined.push(' ');
                let mut k: usize = 0;
                let ghost head = joined@;
                while k < w[3].len()
                    invariant
                        w.len() > 3,
                        0 <= k <= w@[3]@.len(),
                        joined@ == head + w@[3]@.take(k as int),
                    decreases w@[3]@.len() - k,
                {
                    joined.push(w[3][k]);
                    k = k + 1;
                    assert(joined@ =~= head + w@[3]@.take(k as int));
                }
                assert(w@[3]@.take(k as int) =~= w@[3]@);
                string_of(joined.as_slice())
            } else {
                string_of(na.as_slice())
            }
        },
        None => string_of(na.as_slice()),
    }
}

/// Reads the available-memory field from the standard output of
/// `top -b -n 1`, decoded leniently from UTF-8 (see `spec_mem_field`).
pub fn mem_field(stdout: &[u8]) -> (res: Option<String>)
    ensures
        res.deep_view() == spec_mem_field(utf8_lossy(stdout@)),
{
    let report = from_utf8_lossy(stdout);
    mem_field_of_text(report.as_str())
}

/// Reads the available-memory field from a `top -b -n 1` report (see
/// `spec_mem_field`).
fn mem_field_of_text(report: &str) -> (res: Option<String>)
    ensures
        res.deep_view() == spec_mem_field(report@),
{
    let cs = chars_of(report);
    let ls = lines(cs.as_slice());
    let marker = vec!['M', 'i', 'B', ' ', 'M', 'e', 'm'];
    assert(marker@ =~= mem_marker());
    match find_line(&ls, marker.as_slice(), false) {
        Some(i) => {
            assert(ls@[i as int].deep_view() =~= ls@[i as int]@);
            let w = words(ls[i].as_slice());
            if w.len() > 7 {
                assert(w@[7].deep_view() =~= w@[7]@);
                Some(string_of(w[7].as_slice()))
            } else {
                None
            }
        },
        None => None,
    }
}

/// How far the memory readings spread: the largest less the smallest.
pub fn memory_spread(mems: &Vec<usize>) -> (res: usize)
    requires
        mems.len() > 0,
    ensures
        exists|hi: int, lo: int|
            0 <= hi < mems.len() && 0 <= lo < mems.len() && res == mems[hi] - mems[lo] && (
            forall|k: int| 0 <= k < mems.len() ==> mems[lo] <= #[trigger] mems[k] <= mems[hi]),
{
    let mut hi: usize = 0;
    let mut lo: usize = 0;
    let mut i: usize = 1;
    while i < mems.len()
        invariant
            1 <= i <= mems.len(),
            hi < i,
            lo < i,
            forall|k: int| 0 <= k < i ==> mems[lo as int] <= #[trigger] mems[k] <= mems[hi as int],
        decreases mems.len() - i,
    {
        if mems[i] > mems[hi] {
            hi = i;
        }
        if mems[i] < mems[lo] {
            lo = i;
        }
        i = i + 1;
    }
    mems[hi] - mems[lo]
}

} // verus!
