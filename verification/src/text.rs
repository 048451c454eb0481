//! Character-level text processing: line splitting, whitespace splitting and
//! substring search, each specified over `Seq<char>`.

use vstd::prelude::*;

verus! {

/// Appends one character to a string (`String::push`).
#[verifier::external_body]
pub(crate) fn push_char(s: &mut String, c: char)
    ensures
        final(s)@ == old(s)@.push(c),
{
    s.push(c);
}

/// The characters of a string slice, in order.
pub fn chars_of(s: &str) -> (res: Vec<char>)
    ensures
        res@ == s@,
{
    let mut res: Vec<char> = Vec::new();
    broadcast use vstd::string::group_string_axioms;
    for c in it: s.chars()
        invariant
            it.seq() == s@,
            res@ == s@.take(it.index() as int),
    {
        res.push(c);
        assert(res@ == s@.take(it.index() as int + 1));
    }
    assert(s@.take(s@.len() as int) == s@);
    res
}

/// A string made of the given characters.
pub fn string_of(cs: &[char]) -> (res: String)
    ensures
        res@ == cs@,
{
    let mut res = String::new();
    let mut i: usize = 0;
    while i < cs.len()
        invariant
            0 <= i <= cs.len(),
            res@ == cs@.take(i as int),
        decreases cs.len() - i,
    {
        push_char(&mut res, cs[i]);
        i = i + 1;
        assert(res@ == cs@.take(i as int));
    }
    assert(cs@.take(cs.len() as int) == cs@);
    res
}

/// `line` with one trailing carriage return removed, if it has one.
pub open spec fn strip_cr(line: Seq<char>) -> Seq<char> {
    if line.len() > 0 && line.last() == '\r' {
        line.drop_last()
    } else {
        line
    }
}

/// The lines of `rest`, given that `cur` holds the characters read so far of a
/// line that is not yet ended. A line ends at `'\n'`, which is dropped together
/// with a `'\r'` just before it; a last line without `'\n'` is kept as it is,
/// and nothing follows a final `'\n'`.
pub open spec fn lines_from(rest: Seq<char>, cur: Seq<char>) -> Seq<Seq<char>>
    decreases rest.len(),
{
    if rest.len() == 0 {
        if cur.len() == 0 {
            seq![]
        } else {
            seq![cur]
        }
    } else if rest[0] == '\n' {
        seq![strip_cr(cur)] + lines_from(rest.drop_first(), seq![])
    } else {
        lines_from(rest.drop_first(), cur.push(rest[0]))
    }
}

/// The lines of `s`, as `str::lines` yields them.
pub open spec fn spec_lines(s: Seq<char>) -> Seq<Seq<char>> {
    lines_from(s, seq![])
}

/// Splits `s` into lines as `str::lines` does.
pub fn lines(s: &[char]) -> (res: Vec<Vec<char>>)
    ensures
        res.deep_view() == spec_lines(s@),
{
    let mut res: Vec<Vec<char>> = Vec::new();
    let mut cur: Vec<char> = Vec::new();
    let mut i: usize = 0;
    assert(res.deep_view() =~= Seq::<Seq<char>>::empty());
    assert(s@.skip(0) =~= s@);
    while i < s.len()
        invariant
            0 <= i <= s.len(),
            spec_lines(s@) == res.deep_view() + lines_from(s@.skip(i as int), cur@),
        decreases s.len() - i,
    {
        let ghost before = res.deep_view();
        assert(s@.skip(i as int).drop_first() == s@.skip(i + 1));
        if s[i] == '\n' {
            let mut line = cur;
            if line.len() > 0 && line[line.len() - 1] == '\r' {
                line.pop();
            }
            assert(line@ == strip_cr(cur@));
            assert(line.deep_view() =~= line@);
            let ghost lv = line@;
            res.push(line);
            assert(res.deep_view() =~= before.push(lv));
            cur = Vec::new();
        } else {
            cur.push(s[i]);
        }
        i = i + 1;
    }
    assert(s@.skip(i as int) =~= Seq::<char>::empty());
    if cur.len() > 0 {
        let ghost before = res.deep_view();
        let ghost cv = cur@;
        assert(cur.deep_view() =~= cur@);
        res.push(cur);
        assert(res.deep_view() =~= before + seq![cv]);
    } else {
        assert(res.deep_view() =~= res.deep_view() + Seq::<Seq<char>>::empty());
    }
    res
}

/// Whether `s` holds no `'\n'`.
pub open spec fn has_no_newline(s: Seq<char>) -> bool {
    forall|i: int| 0 <= i < s.len() ==> s[i] != '\n'
}

proof fn lemma_lines_from_no_newline(rest: Seq<char>, cur: Seq<char>)
    requires
        has_no_newline(cur),
    ensures
        forall|k: int| 0 <= k < lines_from(rest, cur).len() ==> has_no_newline(
            #[trigger] lines_from(rest, cur)[k],
        ),
    decreases rest.len(),
{
    if rest.len() == 0 {
        if cur.len() > 0 {
            assert(lines_from(rest, cur) == seq![cur]);
        }
    } else if rest[0] == '\n' {
        lemma_lines_from_no_newline(rest.drop_first(), seq![]);
        let tail = lines_from(rest.drop_first(), seq![]);
        assert(lines_from(rest, cur) == seq![strip_cr(cur)] + tail);
        assert forall|k: int| 0 <= k < lines_from(rest, cur).len() implies has_no_newline(
            #[trigger] lines_from(rest, cur)[k],
        ) by {
            if k == 0 {
                assert(lines_from(rest, cur)[0] == strip_cr(cur));
                let l = strip_cr(cur);
                assert forall|i: int| 0 <= i < l.len() implies l[i] != '\n' by {
                    assert(l[i] == cur[i]);
                }
            } else {
                assert(lines_from(rest, cur)[k] == tail[k - 1]);
            }
        }
    } else {
        let next = cur.push(rest[0]);
        assert forall|i: int| 0 <= i < next.len() implies next[i] != '\n' by {
            if i < cur.len() {
                assert(next[i] == cur[i]);
            }
        }
        lemma_lines_from_no_newline(rest.drop_first(), next);
        assert(lines_from(rest, cur) == lines_from(rest.drop_first(), next));
    }
}

/// No line holds a line break.
pub proof fn lemma_lines_have_no_newline(s: Seq<char>)
    ensures
        forall|k: int| 0 <= k < spec_lines(s).len() ==> has_no_newline(#[trigger] spec_lines(s)[k]),
{
    lemma_lines_from_no_newline(s, seq![]);
}


proof fn lemma_lines_from_skip_run(a: Seq<char>, rest: Seq<char>, cur: Seq<char>)
    requires
        forall|i: int| 0 <= i < a.len() ==> a[i] != '\n',
    ensures
        lines_from(a + rest, cur) == lines_from(rest, cur + a),
    decreases a.len(),
{
    if a.len() == 0 {
        assert(a + rest =~= rest);
        assert(cur + a =~= cur);
    } else {
        assert((a + rest)[0] == a[0]);
        assert((a + rest).drop_first() =~= a.drop_first() + rest);
        lemma_lines_from_skip_run(a.drop_first(), rest, cur.push(a[0]));
        assert(cur.push(a[0]) + a.drop_first() =~= cur + a);
    }
}

/// A non-empty text without a line break is one line, the whole text.
pub proof fn lemma_lines_of_one_line(a: Seq<char>)
    requires
        a.len() > 0,
        forall|i: int| 0 <= i < a.len() ==> a[i] != '\n',
    ensures
        spec_lines(a) == seq![a],
{
    lemma_lines_from_skip_run(a, seq![], seq![]);
    assert(a + Seq::<char>::empty() =~= a);
    assert(Seq::<char>::empty() + a =~= a);
}

/// The text before the first line break is the first line (less a carriage
/// return that ends it), and the lines after it are the lines of the rest.
pub proof fn lemma_lines_at_first_break(a: Seq<char>, b: Seq<char>)
    requires
        forall|i: int| 0 <= i < a.len() ==> a[i] != '\n',
    ensures
        a.len() > 0 && a.last() == '\r' ==> spec_lines(a + seq!['\n'] + b) == seq![a.drop_last()]
            + spec_lines(b),
        !(a.len() > 0 && a.last() == '\r') ==> spec_lines(a + seq!['\n'] + b) == seq![a]
            + spec_lines(b),
{
    let rest = seq!['\n'] + b;
    assert(a + seq!['\n'] + b =~= a + rest);
    lemma_lines_from_skip_run(a, rest, seq![]);
    assert(Seq::<char>::empty() + a =~= a);
    assert(rest[0] == '\n');
    assert(rest.drop_first() =~= b);
}

/// Unicode `White_Space`, the property that `char::is_whitespace` tests.
pub open spec fn is_white_space(c: char) -> bool {
    let u = c as u32;
    ||| 0x09 <= u <= 0x0D
    ||| u == 0x20
    ||| u == 0x85
    ||| u == 0xA0
    ||| u == 0x1680
    ||| 0x2000 <= u <= 0x200A
    ||| u == 0x2028
    ||| u == 0x2029
    ||| u == 0x202F
    ||| u == 0x205F
    ||| u == 0x3000
}

/// Whether `c` is Unicode white space (`char::is_whitespace`).
pub fn is_white_space_char(c: char) -> (res: bool)
    ensures
        res == is_white_space(c),
{
    let u = c as u32;
    (0x09 <= u && u <= 0x0D) || u == 0x20 || u == 0x85 || u == 0xA0 || u == 0x1680 || (0x2000
        <= u && u <= 0x200A) || u == 0x2028 || u == 0x2029 || u == 0x202F || u == 0x205F || u
        == 0x3000
}

/// The words of `rest`, given the characters `cur` of a word not yet ended:
/// maximal runs of characters that are not white space.
pub open spec fn words_from(rest: Seq<char>, cur: Seq<char>) -> Seq<Seq<char>>
    decreases rest.len(),
{
    if rest.len() == 0 {
        if cur.len() == 0 {
            seq![]
        } else {
            seq![cur]
        }
    } else if is_white_space(rest[0]) {
        (if cur.len() == 0 {
            seq![]
        } else {
            seq![cur]
        }) + words_from(rest.drop_first(), seq![])
    } else {
        words_from(rest.drop_first(), cur.push(rest[0]))
    }
}

/// The words of `s`, as `str::split_whitespace` yields them.
pub open spec fn spec_words(s: Seq<char>) -> Seq<Seq<char>> {
    words_from(s, seq![])
}

/// Splits `s` at white space as `str::split_whitespace` does.
pub fn words(s: &[char]) -> (res: Vec<Vec<char>>)
    ensures
        res.deep_view() == spec_words(s@),
{
    let mut res: Vec<Vec<char>> = Vec::new();
    let mut cur: Vec<char> = Vec::new();
    let mut i: usize = 0;
    assert(res.deep_view() =~= Seq::<Seq<char>>::empty());
    assert(s@.skip(0) =~= s@);
    while i < s.len()
        invariant
            0 <= i <= s.len(),
            spec_words(s@) == res.deep_view() + words_from(s@.skip(i as int), cur@),
        decreases s.len() - i,
    {
        let ghost before = res.deep_view();
        assert(s@.skip(i as int).drop_first() == s@.skip(i + 1));
        if is_white_space_char(s[i]) {
            if cur.len() > 0 {
                let ghost cv = cur@;
                assert(cur.deep_view() =~= cur@);
                res.push(cur);
                assert(res.deep_view() =~= before + seq![cv]);
            } else {
                assert(res.deep_view() =~= before + Seq::<Seq<char>>::empty());
            }
            cur = Vec::new();
        } else {
            cur.push(s[i]);
        }
        i = i + 1;
    }
    assert(s@.skip(i as int) =~= Seq::<char>::empty());
    if cur.len() > 0 {
        let ghost before = res.deep_view();
        let ghost cv = cur@;
        assert(cur.deep_view() =~= cur@);
        res.push(cur);
        assert(res.deep_view() =~= before + seq![cv]);
    } else {
        assert(res.deep_view() =~= res.deep_view() + Seq::<Seq<char>>::empty());
    }
    res
}

/// Whether `w` is a word: not empty, and without white space.
pub open spec fn is_word(w: Seq<char>) -> bool {
    w.len() > 0 && forall|i: int| 0 <= i < w.len() ==> !is_white_space(#[trigger] w[i])
}

proof fn lemma_words_from_are_words(rest: Seq<char>, cur: Seq<char>)
    requires
        forall|i: int| 0 <= i < cur.len() ==> !is_white_space(#[trigger] cur[i]),
    ensures
        forall|k: int| 0 <= k < words_from(rest, cur).len() ==> is_word(
            #[trigger] words_from(rest, cur)[k],
        ),
    decreases rest.len(),
{
    if rest.len() == 0 {
        if cur.len() > 0 {
            assert(words_from(rest, cur) == seq![cur]);
        }
    } else if is_white_space(rest[0]) {
        lemma_words_from_are_words(rest.drop_first(), seq![]);
        let head: Seq<Seq<char>> = if cur.len() == 0 {
            seq![]
        } else {
            seq![cur]
        };
        let tail = words_from(rest.drop_first(), seq![]);
        assert forall|k: int| 0 <= k < words_from(rest, cur).len() implies is_word(
            #[trigger] words_from(rest, cur)[k],
        ) by {
            assert(words_from(rest, cur) == head + tail);
            if k < head.len() {
                assert(words_from(rest, cur)[k] == cur);
            } else {
                assert(words_from(rest, cur)[k] == tail[k - head.len()]);
            }
        }
    } else {
        let next = cur.push(rest[0]);
        assert forall|i: int| 0 <= i < next.len() implies !is_white_space(#[trigger] next[i]) by {
            if i < cur.len() {
                assert(next[i] == cur[i]);
            }
        }
        lemma_words_from_are_words(rest.drop_first(), next);
        assert(words_from(rest, cur) == words_from(rest.drop_first(), next));
    }
}

/// Every word is non-empty and holds no white space.
pub proof fn lemma_words_are_words(s: Seq<char>)
    ensures
        forall|k: int| 0 <= k < spec_words(s).len() ==> is_word(#[trigger] spec_words(s)[k]),
{
    lemma_words_from_are_words(s, seq![]);
}


proof fn lemma_words_from_split(a: Seq<char>, c: char, b: Seq<char>, cur: Seq<char>)
    requires
        is_white_space(c),
    ensures
        words_from(a + seq![c] + b, cur) == words_from(a, cur) + words_from(b, seq![]),
    decreases a.len(),
{
    let whole = a + seq![c] + b;
    if a.len() == 0 {
        assert(whole =~= seq![c] + b);
        assert(whole[0] == c);
        assert(whole.drop_first() =~= b);
    } else {
        assert(whole[0] == a[0]);
        assert(whole.drop_first() =~= a.drop_first() + seq![c] + b);
        if is_white_space(a[0]) {
            lemma_words_from_split(a.drop_first(), c, b, seq![]);
            let head: Seq<Seq<char>> = if cur.len() == 0 {
                seq![]
            } else {
                seq![cur]
            };
            assert(words_from(whole, cur) == head + words_from(whole.drop_first(), seq![]));
            assert(words_from(a, cur) == head + words_from(a.drop_first(), seq![]));
            assert(head + (words_from(a.drop_first(), seq![]) + words_from(b, seq![])) =~= (head
                + words_from(a.drop_first(), seq![])) + words_from(b, seq![]));
        } else {
            lemma_words_from_split(a.drop_first(), c, b, cur.push(a[0]));
        }
    }
}

/// White space splits the text: the words of `a`, a white-space character,
/// then `b` are the words of `a` followed by the words of `b`.
pub proof fn lemma_words_split_at_space(a: Seq<char>, c: char, b: Seq<char>)
    requires
        is_white_space(c),
    ensures
        spec_words(a + seq![c] + b) == spec_words(a) + spec_words(b),
{
    lemma_words_from_split(a, c, b, seq![]);
}

proof fn lemma_words_from_run(a: Seq<char>, cur: Seq<char>)
    requires
        forall|i: int| 0 <= i < a.len() ==> !is_white_space(#[trigger] a[i]),
    ensures
        words_from(a, cur) == words_from(Seq::<char>::empty(), cur + a),
    decreases a.len(),
{
    if a.len() == 0 {
        assert(cur + a =~= cur);
        assert(a =~= Seq::<char>::empty());
    } else {
        assert(!is_white_space(a[0]));
        lemma_words_from_run(a.drop_first(), cur.push(a[0]));
        assert(cur.push(a[0]) + a.drop_first() =~= cur + a);
    }
}

/// A non-empty run of characters without white space is a single word.
pub proof fn lemma_words_of_one_word(a: Seq<char>)
    requires
        a.len() > 0,
        forall|i: int| 0 <= i < a.len() ==> !is_white_space(#[trigger] a[i]),
    ensures
        spec_words(a) == seq![a],
{
    lemma_words_from_run(a, seq![]);
    assert(Seq::<char>::empty() + a =~= a);
}

/// Whether `needle` occurs in `s` at position `i`.
pub open spec fn occurs_at(s: Seq<char>, needle: Seq<char>, i: int) -> bool {
    0 <= i && i + needle.len() <= s.len() && s.subrange(i, i + needle.len()) == needle
}

/// Whether `needle` occurs in `s` (`str::contains` with a string pattern).
pub open spec fn spec_contains(s: Seq<char>, needle: Seq<char>) -> bool {
    exists|i: int| occurs_at(s, needle, i)
}

/// Whether `s` begins with `prefix` (`str::starts_with`).
pub open spec fn spec_starts_with(s: Seq<char>, prefix: Seq<char>) -> bool {
    occurs_at(s, prefix, 0)
}

/// Whether `needle` occurs in `s` at position `i`.
fn matches_at(s: &[char], needle: &[char], i: usize) -> (res: bool)
    requires
        i <= s.len(),
    ensures
        res == occurs_at(s@, needle@, i as int),
{
    if needle.len() > s.len() - i {
        return false;
    }
    let mut k: usize = 0;
    while k < needle.len()
        invariant
            i + needle.len() <= s.len(),
            0 <= k <= needle.len(),
            forall|j: int| 0 <= j < k ==> s@[i + j] == needle@[j],
        decreases needle.len() - k,
    {
        if s[i + k] != needle[k] {
            assert(s@.subrange(i as int, i + needle.len())[k as int] != needle@[k as int]);
            return false;
        }
        k = k + 1;
    }
    assert(s@.subrange(i as int, i + needle.len()) =~= needle@);
    true
}

/// Whether `s` begins with `prefix`.
pub fn starts_with(s: &[char], prefix: &[char]) -> (res: bool)
    ensures
        res == spec_starts_with(s@, prefix@),
{
    matches_at(s, prefix, 0)
}

/// Whether `needle` occurs in `s`.
pub fn contains(s: &[char], needle: &[char]) -> (res: bool)
    ensures
        res == spec_contains(s@, needle@),
{
    let mut i: usize = 0;
    while i < s.len()
        invariant
            0 <= i <= s.len(),
            forall|j: int| 0 <= j < i ==> !occurs_at(s@, needle@, j),
        decreases s.len() - i,
    {
        if matches_at(s, needle, i) {
            return true;
        }
        i = i + 1;
    }
    if matches_at(s, needle, i) {
        return true;
    }
    assert forall|j: int| !occurs_at(s@, needle@, j) by {
        if 0 <= j && j + needle@.len() <= s@.len() {
            assert(j <= i);
        }
    }
    false
}

} // verus!
