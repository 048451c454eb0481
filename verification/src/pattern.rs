//! The regular expression that picks a request's duration out of the lines
//! that the benchmarked command prints.

use vstd::prelude::*;
use crate::text::{chars_of, lines, spec_lines, string_of};

verus! {

/// A compiled `regex::Regex`.
#[verifier::external_type_specification]
#[verifier::external_body]
pub struct ExRegex(regex::Regex);

/// Whether `regex::Regex::new` accepts `pattern` (with the crate's default
/// size limits).
pub uninterp spec fn regex_compiles(pattern: Seq<char>) -> bool;

/// The text of capture group 1 of the first match of the regex `pattern` in
/// `line`, or `None` where there is no match or group 1 took no part in it.
pub uninterp spec fn regex_group1(pattern: Seq<char>, line: Seq<char>) -> Option<Seq<char>>;

/// Why a duration pattern could not be used.
#[derive(Debug, Clone, PartialEq, Eq)]
pub enum PatternError {
    /// The pattern is not a regular expression that `regex` accepts; the
    /// text is `regex`'s description of what is wrong.
    Invalid(String),
}

/// A regular expression together with the pattern it was compiled from.
pub struct LatencyPattern {
    re: regex::Regex,
    pattern: String,
}

impl View for LatencyPattern {
    type V = Seq<char>;

    /// The pattern the regular expression was compiled from.
    closed spec fn view(&self) -> Seq<char> {
        self.pattern@
    }
}

/// `regex::Regex::new` on `pattern`: on success the compiled regex kept
/// together with the pattern it was compiled from (so the two always agree),
/// and on refusal the `Display` text of `regex::Error`, of which nothing is
/// stated. Succeeds exactly on the patterns that `regex` accepts.
#[verifier::external_body]
fn compile_pattern(pattern: &str) -> (res: Result<LatencyPattern, String>)
    ensures
        res is Ok <==> regex_compiles(pattern@),
        res matches Ok(p) ==> p@ == pattern@,
{
    match regex::Regex::new(pattern) {
        Ok(re) => Ok(LatencyPattern { re, pattern: pattern.to_owned() }),
        Err(e) => Err(e.to_string()),
    }
}

/// `regex::Regex::captures` followed by `Captures::get(1)`: the text of
/// group 1 of the first match in `line` of the regex compiled from `p@`
/// (`compile_pattern`, the only place that builds a `LatencyPattern`,
/// pairs them). The text is a
/// slice of `line`, as `Match::as_str` shows.
#[verifier::external_body]
fn first_group(p: &LatencyPattern, line: &str) -> (res: Option<String>)
    ensures
        res.deep_view() == regex_group1(p@, line@),
        res matches Some(g) ==> is_slice_of(g@, line@),
{
    match p.re.captures(line) {
        Some(caps) => match caps.get(1) {
            Some(m) => Some(m.as_str().to_string()),
            None => None,
        },
        None => None,
    }
}

/// Whether `part` is a contiguous slice of `whole`.
pub open spec fn is_slice_of(part: Seq<char>, whole: Seq<char>) -> bool {
    exists|i: int, j: int| 0 <= i <= j <= whole.len() && part == whole.subrange(i, j)
}

/// Whether each of `found` is a slice of one of `lines`.
pub open spec fn each_within_a_line(found: Seq<Seq<char>>, lines: Seq<Seq<char>>) -> bool {
    forall|k: int|
        0 <= k < found.len() ==> exists|j: int|
            0 <= j < lines.len() && is_slice_of(#[trigger] found[k], lines[j])
}

/// For each line in order that the pattern captures a group 1 in, the text
/// of that group.
pub open spec fn spec_candidates(pattern: Seq<char>, lines: Seq<Seq<char>>) -> Seq<Seq<char>>
    decreases lines.len(),
{
    if lines.len() == 0 {
        seq![]
    } else {
        let rest = spec_candidates(pattern, lines.drop_last());
        match regex_group1(pattern, lines.last()) {
            Some(g) => rest.push(g),
            None => rest,
        }
    }
}


/// One line gives its group-1 capture as the only candidate, whatever its
/// text (indented or not), or none where the pattern captures nothing.
pub proof fn lemma_candidates_of_one_line(pattern: Seq<char>, line: Seq<char>)
    ensures
        spec_candidates(pattern, seq![line]) == match regex_group1(pattern, line) {
            Some(g) => seq![g],
            None => Seq::<Seq<char>>::empty(),
        },
{
    let ls = seq![line];
    assert(ls.drop_last() =~= Seq::<Seq<char>>::empty());
    assert(ls.last() == line);
    assert(spec_candidates(pattern, Seq::<Seq<char>>::empty()) == Seq::<Seq<char>>::empty());
    assert(Seq::<Seq<char>>::empty().push(line) =~= seq![line]);
    match regex_group1(pattern, line) {
        Some(g) => {
            assert(Seq::<Seq<char>>::empty().push(g) =~= seq![g]);
        },
        None => {},
    }
}

/// The candidates of two runs of lines are those of the first run followed
/// by those of the second: every line is read, in order.
pub proof fn lemma_candidates_concat(pattern: Seq<char>, x: Seq<Seq<char>>, y: Seq<Seq<char>>)
    ensures
        spec_candidates(pattern, x + y) == spec_candidates(pattern, x) + spec_candidates(pattern, y),
    decreases y.len(),
{
    if y.len() == 0 {
        assert(x + y =~= x);
        assert(spec_candidates(pattern, x) + Seq::<Seq<char>>::empty() =~= spec_candidates(
            pattern,
            x,
        ));
    } else {
        lemma_candidates_concat(pattern, x, y.drop_last());
        assert((x + y).drop_last() =~= x + y.drop_last());
        assert((x + y).last() == y.last());
        let a = spec_candidates(pattern, x);
        let b = spec_candidates(pattern, y.drop_last());
        match regex_group1(pattern, y.last()) {
            Some(g) => {
                assert((a + b).push(g) =~= a + b.push(g));
            },
            None => {},
        }
    }
}

/// Every line that the pattern captures in contributes its capture, at the
/// place of that line: the candidates are those of the lines before it, its
/// capture, then those of the lines after it.
pub proof fn lemma_every_capture_is_a_candidate(pattern: Seq<char>, lines: Seq<Seq<char>>, j: int)
    requires
        0 <= j < lines.len(),
        regex_group1(pattern, lines[j]) is Some,
    ensures
        spec_candidates(pattern, lines) == spec_candidates(pattern, lines.take(j)) + seq![
            regex_group1(pattern, lines[j])->0,
        ] + spec_candidates(pattern, lines.skip(j + 1)),
        spec_candidates(pattern, lines).contains(regex_group1(pattern, lines[j])->0),
{
    let g = regex_group1(pattern, lines[j])->0;
    assert(lines =~= lines.take(j) + seq![lines[j]] + lines.skip(j + 1));
    lemma_candidates_concat(pattern, lines.take(j) + seq![lines[j]], lines.skip(j + 1));
    lemma_candidates_concat(pattern, lines.take(j), seq![lines[j]]);
    lemma_candidates_of_one_line(pattern, lines[j]);
    let before = spec_candidates(pattern, lines.take(j));
    let all = spec_candidates(pattern, lines);
    assert(all[before.len() as int] == g);
}

impl LatencyPattern {
    /// Compiles `pattern`; fails exactly where `regex` refuses it, with
    /// `regex`'s description of the fault.
    pub fn new(pattern: &str) -> (res: Result<LatencyPattern, PatternError>)
        ensures
            res is Ok <==> regex_compiles(pattern@),
            res matches Ok(p) ==> p@ == pattern@,
    {
        match compile_pattern(pattern) {
            Ok(p) => Ok(p),
            Err(message) => Err(PatternError::Invalid(message)),
        }
    }

    /// The group-1 captures of the lines of `output`, in line order: the
    /// candidates for the duration that the command reported. Each is a
    /// slice of one line.
    pub fn duration_candidates(&self, output: &str) -> (res: Vec<String>)
        ensures
            res.deep_view() == spec_candidates(self@, spec_lines(output@)),
            each_within_a_line(res.deep_view(), spec_lines(output@)),
    {
        let cs = chars_of(output);
        let ls = lines(cs.as_slice());
        let ghost all = spec_lines(output@);
        let mut res: Vec<String> = Vec::new();
        let mut i: usize = 0;
        assert(all.take(0) =~= Seq::<Seq<char>>::empty());
        assert(res.deep_view() =~= Seq::<Seq<char>>::empty());
        while i < ls.len()
            invariant
                0 <= i <= ls.len(),
                ls.deep_view() == all,
                res.deep_view() == spec_candidates(self@, all.take(i as int)),
                each_within_a_line(res.deep_view(), all),
            decreases ls.len() - i,
        {
            let ghost before = res.deep_view();
            assert(ls@[i as int].deep_view() == all[i as int]);
            assert(ls@[i as int].deep_view() =~= ls@[i as int]@);
            let line = string_of(ls[i].as_slice());
            assert(all.take(i + 1).drop_last() =~= all.take(i as int));
            assert(all.take(i + 1).last() == line@);
            match first_group(self, line.as_str()) {
                Some(g) => {
                    let ghost gv = g@;
                    res.push(g);
                    assert(res.deep_view() =~= before.push(gv));
                    assert forall|k: int| 0 <= k < res.deep_view().len() implies exists|j: int|
                        0 <= j < all.len() && is_slice_of(#[trigger] res.deep_view()[k], all[j]) by {
                        if k < before.len() {
                            assert(res.deep_view()[k] == before[k]);
                        } else {
                            assert(res.deep_view()[k] == gv);
                            assert(is_slice_of(gv, all[i as int]));
                        }
                    }
                },
                None => {},
            }
            i = i + 1;
        }
        assert(all.take(ls.len() as int) =~= all);
        res
    }
}

} // verus!
