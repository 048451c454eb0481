//! Random container identifiers, and the placeholder that stands for one in a
//! command line.

use vstd::prelude::*;
use crate::draw::{gen_u32_in, Draw};
use crate::number::is_ascii_digit;
use crate::text::{chars_of, push_char};

verus! {

/// Whether `c` is one of `'a'..='z'`.
pub open spec fn is_ascii_lowercase(c: char) -> bool {
    97 <= c as u32 <= 122
}

/// The shape of a random identifier: three ASCII lowercase letters followed
/// by six ASCII digits.
pub open spec fn is_random_id(id: Seq<char>) -> bool {
    &&& id.len() == 9
    &&& forall|i: int| 0 <= i < 3 ==> is_ascii_lowercase(#[trigger] id[i])
    &&& forall|i: int| 3 <= i < 9 ==> is_ascii_digit(#[trigger] id[i])
}

/// The identifier made of three drawn letter codes and six drawn digits: the
/// letters as characters, then the digits as decimal digit characters.
pub open spec fn spec_id_from_draws(letters: Seq<u32>, digits: Seq<u32>) -> Seq<char> {
    Seq::new(3, |i: int| letters[i] as char) + Seq::new(6, |i: int| (digits[i] + 48) as char)
}

/// Builds an identifier from three drawn letter codes (in `'a'..='z'`) and
/// six drawn digits (in `0..=9`).
pub fn id_from_draws(letters: &[u32], digits: &[u32]) -> (id: String)
    requires
        letters.len() == 3,
        digits.len() == 6,
        forall|i: int| 0 <= i < 3 ==> 97 <= #[trigger] letters[i] <= 122,
        forall|i: int| 0 <= i < 6 ==> #[trigger] digits[i] <= 9,
    ensures
        id@ == spec_id_from_draws(letters@, digits@),
        is_random_id(id@),
{
    let ghost want = spec_id_from_draws(letters@, digits@);
    let mut id = String::new();
    let mut i: usize = 0;
    while i < 3
        invariant
            0 <= i <= 3,
            letters.len() == 3,
            forall|k: int| 0 <= k < 3 ==> 97 <= #[trigger] letters[k] <= 122,
            want == spec_id_from_draws(letters@, digits@),
            id@ == want.take(i as int),
        decreases 3 - i,
    {
        let letter = letters[i] as u8;
        push_char(&mut id, letter as char);
        assert(want[i as int] == letters[i as int] as char);
        i = i + 1;
        assert(id@ =~= want.take(i as int));
    }
    let mut k: usize = 0;
    while k < 6
        invariant
            0 <= k <= 6,
            digits.len() == 6,
            forall|m: int| 0 <= m < 6 ==> #[trigger] digits[m] <= 9,
            want == spec_id_from_draws(letters@, digits@),
            id@ == want.take(3 + k),
        decreases 6 - k,
    {
        let digit = (digits[k] + 48) as u8;
        push_char(&mut id, digit as char);
        assert(want[3 + k] == (digits[k as int] + 48) as char);
        k = k + 1;
        assert(id@ =~= want.take(3 + k));
    }
    assert(want.take(9) =~= want);
    id
}

/// The values of a run of draws.
pub open spec fn draw_values(ds: Seq<Draw>) -> Seq<u32> {
    ds.map_values(|d: Draw| d.drawn())
}

/// Draws a fresh identifier from the thread-local generator: three letter
/// codes, each drawn from `97..=122` (`'a'..='z'`), then six digits, each
/// drawn from `0..=9`; the identifier is spelled by exactly these draws.
pub fn draw_id() -> (res: (String, Vec<Draw>, Vec<Draw>))
    ensures
        res.1.len() == 3,
        res.2.len() == 6,
        forall|i: int| 0 <= i < 3 ==> (#[trigger] res.1@[i]).low() == 97 && res.1@[i].high() == 122,
        forall|i: int| 0 <= i < 6 ==> (#[trigger] res.2@[i]).low() == 0 && res.2@[i].high() == 9,
        res.0@ == spec_id_from_draws(draw_values(res.1@), draw_values(res.2@)),
        is_random_id(res.0@),
{
    let mut rng = rand::thread_rng();
    let mut letter_draws: Vec<Draw> = Vec::new();
    let mut letters: Vec<u32> = Vec::new();
    while letter_draws.len() < 3
        invariant
            letter_draws.len() <= 3,
            letters@ == draw_values(letter_draws@),
            forall|i: int| 0 <= i < letter_draws.len() ==> (#[trigger] letter_draws@[i]).low() == 97
                && letter_draws@[i].high() == 122 && 97 <= letter_draws@[i].drawn() <= 122,
        decreases 3 - letter_draws.len(),
    {
        let d = gen_u32_in(&mut rng, 97, 122);
        letters.push(d.value());
        letter_draws.push(d);
        assert(letters@ =~= draw_values(letter_draws@));
    }
    let mut rng = rand::thread_rng();
    let mut digit_draws: Vec<Draw> = Vec::new();
    let mut digits: Vec<u32> = Vec::new();
    while digit_draws.len() < 6
        invariant
            digit_draws.len() <= 6,
            digits@ == draw_values(digit_draws@),
            forall|i: int| 0 <= i < digit_draws.len() ==> (#[trigger] digit_draws@[i]).low() == 0
                && digit_draws@[i].high() == 9 && digit_draws@[i].drawn() <= 9,
        decreases 6 - digit_draws.len(),
    {
        let d = gen_u32_in(&mut rng, 0, 9);
        digits.push(d.value());
        digit_draws.push(d);
        assert(digits@ =~= draw_values(digit_draws@));
    }
    assert forall|i: int| 0 <= i < 3 implies 97 <= #[trigger] letters@[i] <= 122 by {
        assert(letters@[i] == letter_draws@[i].drawn());
    }
    assert forall|i: int| 0 <= i < 6 implies #[trigger] digits@[i] <= 9 by {
        assert(digits@[i] == digit_draws@[i].drawn());
    }
    let id = id_from_draws(letters.as_slice(), digits.as_slice());
    (id, letter_draws, digit_draws)
}

/// A fresh random identifier: three letters drawn from `'a'..='z'`, then six
/// digits drawn from `0..=9`, all from the thread-local generator (see
/// `draw_id`).
pub fn random_id() -> (id: String)
    ensures
        is_random_id(id@),
        exists|letters: Seq<u32>, digits: Seq<u32>|
            letters.len() == 3 && digits.len() == 6 && id@ == spec_id_from_draws(letters, digits),
{
    let (id, letter_draws, digit_draws) = draw_id();
    proof {
        let l = draw_values(letter_draws@);
        let d = draw_values(digit_draws@);
        assert(l.len() == 3 && d.len() == 6 && id@ == spec_id_from_draws(l, d));
    }
    id
}

/// An identifier spells out its draws: character `i < 3` is the `i`-th letter
/// drawn, and character `3 + k` is the decimal digit of the `k`-th digit
/// drawn. So identifiers from different draws differ.
pub proof fn lemma_id_spells_its_draws(l1: Seq<u32>, d1: Seq<u32>, l2: Seq<u32>, d2: Seq<u32>)
    requires
        l1.len() == 3 && d1.len() == 6 && l2.len() == 3 && d2.len() == 6,
        forall|i: int| 0 <= i < 3 ==> 97 <= #[trigger] l1[i] <= 122,
        forall|i: int| 0 <= i < 3 ==> 97 <= #[trigger] l2[i] <= 122,
        forall|i: int| 0 <= i < 6 ==> #[trigger] d1[i] <= 9,
        forall|i: int| 0 <= i < 6 ==> #[trigger] d2[i] <= 9,
    ensures
        forall|i: int| 0 <= i < 3 ==> (#[trigger] spec_id_from_draws(l1, d1)[i]) as u32 == l1[i],
        forall|k: int| 0 <= k < 6 ==> (#[trigger] spec_id_from_draws(l1, d1)[3 + k]) as u32 == d1[k] + 48,
        spec_id_from_draws(l1, d1) == spec_id_from_draws(l2, d2) ==> l1 == l2 && d1 == d2,
{
    let a = spec_id_from_draws(l1, d1);
    let b = spec_id_from_draws(l2, d2);
    assert forall|i: int| 0 <= i < 3 implies (#[trigger] a[i]) as u32 == l1[i] by {
        assert(a[i] == l1[i] as char);
    }
    assert forall|k: int| 0 <= k < 6 implies (#[trigger] a[3 + k]) as u32 == d1[k] + 48 by {
        assert(a[3 + k] == (d1[k] + 48) as char);
    }
    if a == b {
        assert forall|i: int| 0 <= i < 3 implies l1[i] == l2[i] by {
            assert(a[i] == l1[i] as char);
            assert(b[i] == l2[i] as char);
        }
        assert forall|k: int| 0 <= k < 6 implies d1[k] == d2[k] by {
            assert(a[3 + k] == (d1[k] + 48) as char);
            assert(b[3 + k] == (d2[k] + 48) as char);
        }
        assert(l1 =~= l2);
        assert(d1 =~= d2);
    }
}

/// The placeholder that stands for a fresh identifier in a command line.
pub open spec fn placeholder() -> Seq<char> {
    seq!['x', 'y', 'z']
}

/// Whether `s` is the placeholder.
fn is_placeholder(s: &str) -> (res: bool)
    ensures
        res == (s@ == placeholder()),
{
    let cs = chars_of(s);
    if cs.len() != 3 {
        return false;
    }
    let res = cs[0] == 'x' && cs[1] == 'y' && cs[2] == 'z';
    if res {
        assert(cs@ =~= placeholder());
    }
    res
}

/// `s` itself, or a fresh random identifier where `s` is the placeholder.
pub fn _ph2random(s: &str) -> (res: String)
    ensures
        s@ != placeholder() ==> res@ == s@,
        s@ == placeholder() ==> is_random_id(res@),
{
    if !is_placeholder(s) {
        return s.to_owned();
    }
    random_id()
}

} // verus!
