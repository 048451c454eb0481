//! Finding the Firecracker processes to kill once a container's request has
//! finished, from the output of `ps aux`.

use vstd::prelude::*;
use crate::number::{parse_i32, spec_parse_i32};
use crate::task::{from_utf8_lossy, utf8_lossy};
use crate::text::{chars_of, contains, lines, occurs_at, spec_contains, spec_lines, spec_words, words};

verus! {

/// The word that marks a Firecracker process.
pub open spec fn firecracker_marker() -> Seq<char> {
    seq!['f', 'i', 'r', 'e', 'c', 'r', 'a', 'c', 'k', 'e', 'r']
}

/// The process id named by a line of `ps` output for container `id`: the
/// line holds both `id` and `firecracker`, and its second word reads as an
/// `i32`.
pub open spec fn line_pid(line: Seq<char>, id: Seq<char>) -> Option<i32> {
    if spec_contains(line, id) && spec_contains(line, firecracker_marker()) {
        let w = spec_words(line);
        if w.len() > 1 {
            spec_parse_i32(w[1])
        } else {
            None
        }
    } else {
        None
    }
}

/// The process ids named by `lines` for container `id`, in line order.
pub open spec fn spec_pids(lines: Seq<Seq<char>>, id: Seq<char>) -> Seq<i32>
    decreases lines.len(),
{
    if lines.len() == 0 {
        seq![]
    } else {
        let rest = spec_pids(lines.drop_last(), id);
        match line_pid(lines.last(), id) {
            Some(p) => rest.push(p),
            None => rest,
        }
    }
}


/// A line that holds the container's id and the text `firecracker` anywhere
/// (inside a path too), and whose second word reads as an `i32`, names that
/// process.
pub proof fn lemma_marked_line_names_pid(
    pre: Seq<char>,
    post: Seq<char>,
    id: Seq<char>,
    at: int,
    pid: i32,
)
    requires
        ({
            let line = pre + seq!['f', 'i', 'r', 'e', 'c', 'r', 'a', 'c', 'k', 'e', 'r'] + post;
            &&& 0 <= at && at + id.len() <= line.len()
            &&& line.subrange(at, at + id.len()) == id
            &&& spec_words(line).len() > 1
            &&& spec_parse_i32(spec_words(line)[1]) == Some(pid)
        }),
    ensures
        line_pid(pre + seq!['f', 'i', 'r', 'e', 'c', 'r', 'a', 'c', 'k', 'e', 'r'] + post, id) == Some(
            pid,
        ),
{
    let m = seq!['f', 'i', 'r', 'e', 'c', 'r', 'a', 'c', 'k', 'e', 'r'];
    let line = pre + m + post;
    assert(occurs_at(line, id, at));
    assert(line.subrange(pre.len() as int, (pre.len() + m.len()) as int) =~= m);
    assert(m =~= firecracker_marker());
    assert(occurs_at(line, firecracker_marker(), pre.len() as int));
}

/// A line names a process only if it holds the container's id and the text
/// `firecracker`, and the process is its second word read as an `i32`.
pub proof fn lemma_named_pid_comes_from_a_marked_line(line: Seq<char>, id: Seq<char>, pid: i32)
    requires
        line_pid(line, id) == Some(pid),
    ensures
        exists|i: int|
            0 <= i && i + id.len() <= line.len() && #[trigger] line.subrange(i, i + id.len()) == id,
        exists|i: int|
            0 <= i && i + 11 <= line.len() && #[trigger] line.subrange(i, i + 11) == seq![
                'f',
                'i',
                'r',
                'e',
                'c',
                'r',
                'a',
                'c',
                'k',
                'e',
                'r',
            ],
        spec_words(line).len() > 1,
        spec_parse_i32(spec_words(line)[1]) == Some(pid),
{
    let i = choose|i: int| occurs_at(line, id, i);
    assert(line.subrange(i, i + id.len()) == id);
    let k = choose|k: int| occurs_at(line, firecracker_marker(), k);
    assert(line.subrange(k, k + 11) == firecracker_marker());
}

/// The processes named by two runs of lines are those of the first followed
/// by those of the second, and one line names at most its own process: every
/// line is read, in order.
pub proof fn lemma_pids_concat(x: Seq<Seq<char>>, y: Seq<Seq<char>>, id: Seq<char>)
    ensures
        spec_pids(x + y, id) == spec_pids(x, id) + spec_pids(y, id),
    decreases y.len(),
{
    if y.len() == 0 {
        assert(x + y =~= x);
        assert(spec_pids(x, id) + Seq::<i32>::empty() =~= spec_pids(x, id));
    } else {
        lemma_pids_concat(x, y.drop_last(), id);
        assert((x + y).drop_last() =~= x + y.drop_last());
        assert((x + y).last() == y.last());
        let a = spec_pids(x, id);
        let b = spec_pids(y.drop_last(), id);
        match line_pid(y.last(), id) {
            Some(p) => {
                assert((a + b).push(p) =~= a + b.push(p));
            },
            None => {},
        }
    }
}

/// One line gives the process it names, if any.
pub proof fn lemma_pids_of_one_line(line: Seq<char>, id: Seq<char>)
    ensures
        spec_pids(seq![line], id) == match line_pid(line, id) {
            Some(p) => seq![p],
            None => Seq::<i32>::empty(),
        },
{
    let ls = seq![line];
    assert(ls.drop_last() =~= Seq::<Seq<char>>::empty());
    assert(ls.last() == line);
    assert(spec_pids(Seq::<Seq<char>>::empty(), id) == Seq::<i32>::empty());
    assert(spec_pids(ls, id) == match line_pid(line, id) {
        Some(p) => spec_pids(ls.drop_last(), id).push(p),
        None => spec_pids(ls.drop_last(), id),
    });
    match line_pid(line, id) {
        Some(p) => {
            assert(Seq::<i32>::empty().push(p) =~= seq![p]);
        },
        None => {},
    }
}

/// The process id named by one line of `ps` output for container `id`.
fn pid_of_line(line: &[char], id: &[char], marker: &[char]) -> (res: Option<i32>)
    requires
        marker@ == firecracker_marker(),
    ensures
        res == line_pid(line@, id@),
{
    if contains(line, id) && contains(line, marker) {
        let w = words(line);
        if w.len() > 1 {
            assert(w@[1].deep_view() =~= w@[1]@);
            parse_i32(w[1].as_slice())
        } else {
            None
        }
    } else {
        None
    }
}

/// The Firecracker processes of container `id` named by the standard output
/// of `ps aux`, decoded leniently from UTF-8, in line order.
pub fn firecracker_pids(ps_stdout: &[u8], id: &str) -> (res: Vec<i32>)
    ensures
        res@ == spec_pids(spec_lines(utf8_lossy(ps_stdout@)), id@),
{
    let ps_output = from_utf8_lossy(ps_stdout);
    pids_of_text(ps_output.as_str(), id)
}

/// The Firecracker processes of container `id` in the output of `ps aux`,
/// in line order.
fn pids_of_text(ps_output: &str, id: &str) -> (res: Vec<i32>)
    ensures
        res@ == spec_pids(spec_lines(ps_output@), id@),
{
    let cs = chars_of(ps_output);
    let idc = chars_of(id);
    let marker = vec!['f', 'i', 'r', 'e', 'c', 'r', 'a', 'c', 'k', 'e', 'r'];
    assert(marker@ =~= firecracker_marker());
    let ls = lines(cs.as_slice());
    let ghost all = spec_lines(ps_output@);
    let mut res: Vec<i32> = Vec::new();
    let mut i: usize = 0;
    assert(all.take(0) =~= Seq::<Seq<char>>::empty());
    while i < ls.len()
        invariant
            0 <= i <= ls.len(),
            ls.deep_view() == all,
            idc@ == id@,
            marker@ == firecracker_marker(),
            res@ == spec_pids(all.take(i as int), id@),
        decreases ls.len() - i,
    {
        assert(ls@[i as int].deep_view() == all[i as int]);
        assert(ls@[i as int].deep_view() =~= ls@[i as int]@);
        assert(all.take(i + 1).drop_last() =~= all.take(i as int));
        assert(all.take(i + 1).last() == all[i as int]);
        match pid_of_line(ls[i].as_slice(), idc.as_slice(), marker.as_slice()) {
            Some(p) => res.push(p),
            None => {},
        }
        i = i + 1;
    }
    assert(all.take(ls.len() as int) =~= all);
    res
}

} // verus!
