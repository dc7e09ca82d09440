//! Character-level helpers shared by the parsers of this crate: locating a
//! fixed pattern inside a text and trimming white space from its ends.
//!
//! Texts are modelled as `Seq<char>`; the executable functions work on a
//! `Vec<char>` so that every position can be inspected in constant time.

use vstd::prelude::*;

verus! {

/// `c` is white space: one of the characters that Unicode classes as
/// White_Space. These are the tab, the line feed, the vertical tab, the form
/// feed, the carriage return, the space, the next-line control, the no-break
/// space, the Ogham space mark, the spaces of fixed width from the en quad to
/// the hair space, the line and the paragraph separator, the narrow no-break
/// space, the medium mathematical space and the ideographic space.
pub open spec fn white_space(c: char) -> bool {
    let code = c as u32;
    ||| 0x0009 <= code <= 0x000D
    ||| code == 0x0020
    ||| code == 0x0085
    ||| code == 0x00A0
    ||| code == 0x1680
    ||| 0x2000 <= code <= 0x200A
    ||| code == 0x2028
    ||| code == 0x2029
    ||| code == 0x202F
    ||| code == 0x205F
    ||| code == 0x3000
}

/// Whether `c` is white space.
pub fn is_white_space(c: char) -> (b: bool)
    ensures
        b == white_space(c),
{
    let code: u32 = c as u32;
    (0x0009 <= code && code <= 0x000D) || code == 0x0020 || code == 0x0085 || code == 0x00A0
        || code == 0x1680 || (0x2000 <= code && code <= 0x200A) || code == 0x2028 || code
        == 0x2029 || code == 0x202F || code == 0x205F || code == 0x3000
}

/// Every character of `s` is white space.
pub open spec fn all_white_space(s: Seq<char>) -> bool {
    forall|i: int| 0 <= i < s.len() ==> white_space(#[trigger] s[i])
}

/// `s` without its leading white space.
pub open spec fn trim_start(s: Seq<char>) -> Seq<char>
    decreases s.len(),
{
    if s.len() > 0 && white_space(s[0]) {
        trim_start(s.drop_first())
    } else {
        s
    }
}

/// `s` without its trailing white space.
pub open spec fn trim_end(s: Seq<char>) -> Seq<char>
    decreases s.len(),
{
    if s.len() > 0 && white_space(s.last()) {
        trim_end(s.drop_last())
    } else {
        s
    }
}

/// `s` without its leading and trailing white space.
pub open spec fn trim(s: Seq<char>) -> Seq<char> {
    trim_end(trim_start(s))
}

/// `pat` stands in `s` at position `i`.
pub open spec fn occurs_at(s: Seq<char>, pat: Seq<char>, i: int) -> bool {
    &&& 0 <= i
    &&& i + pat.len() <= s.len()
    &&& s.subrange(i, i + pat.len()) == pat
}

/// `j` is the first position at or after `from` at which `pat` stands in `s`.
pub open spec fn first_occurrence(s: Seq<char>, pat: Seq<char>, from: int, j: int) -> bool {
    &&& from <= j
    &&& occurs_at(s, pat, j)
    &&& forall|k: int| from <= k < j ==> !occurs_at(s, pat, k)
}

/// `pat` stands nowhere in `s` at or after `from`.
pub open spec fn absent_from(s: Seq<char>, pat: Seq<char>, from: int) -> bool {
    forall|k: int| from <= k ==> !occurs_at(s, pat, k)
}

/// `s` ends with `suffix`.
pub open spec fn ends_with(s: Seq<char>, suffix: Seq<char>) -> bool {
    occurs_at(s, suffix, s.len() - suffix.len())
}

/// The texts that the given strings hold, in order.
pub open spec fn texts(strings: Seq<String>) -> Seq<Seq<char>> {
    strings.map_values(|s: String| s@)
}

/// What `trim_start` leaves of `s` is the end of `s`; what it drops is white
/// space, and what it leaves does not begin with white space.
pub proof fn lemma_trim_start_shape(s: Seq<char>)
    ensures
        trim_start(s).len() <= s.len(),
        trim_start(s) == s.subrange(s.len() - trim_start(s).len(), s.len() as int),
        all_white_space(s.subrange(0, s.len() - trim_start(s).len())),
        trim_start(s).len() > 0 ==> !white_space(trim_start(s)[0]),
    decreases s.len(),
{
    if s.len() > 0 && white_space(s[0]) {
        let rest = s.drop_first();
        lemma_trim_start_shape(rest);
        let kept = trim_start(rest);
        let dropped = s.subrange(0, s.len() - kept.len());
        assert forall|i: int| 0 <= i < dropped.len() implies white_space(#[trigger] dropped[i]) by {
            if i > 0 {
                assert(dropped[i] == rest.subrange(0, rest.len() - kept.len())[i - 1]);
            }
        }
    }
}

/// What `trim_end` leaves of `s` is the beginning of `s`; what it drops is
/// white space, and what it leaves does not end with white space.
pub proof fn lemma_trim_end_shape(s: Seq<char>)
    ensures
        trim_end(s).len() <= s.len(),
        trim_end(s) == s.subrange(0, trim_end(s).len() as int),
        all_white_space(s.subrange(trim_end(s).len() as int, s.len() as int)),
        trim_end(s).len() > 0 ==> !white_space(trim_end(s).last()),
    decreases s.len(),
{
    if s.len() > 0 && white_space(s.last()) {
        let rest = s.drop_last();
        lemma_trim_end_shape(rest);
        let kept = trim_end(rest);
        let dropped = s.subrange(kept.len() as int, s.len() as int);
        assert forall|i: int| 0 <= i < dropped.len() implies white_space(#[trigger] dropped[i]) by {
            if i < dropped.len() - 1 {
                assert(dropped[i] == rest.subrange(kept.len() as int, rest.len() as int)[i]);
            }
        }
    }
}

/// What `trim` leaves of `s` is one piece of `s`; what stands before and
/// after that piece is white space, and the piece neither begins nor ends
/// with white space.
pub proof fn lemma_trim_shape(s: Seq<char>)
    ensures
        ({
            let kept = trim(s);
            let from = s.len() - trim_start(s).len();
            &&& 0 <= from
            &&& from + kept.len() <= s.len()
            &&& kept == s.subrange(from, from + kept.len())
            &&& all_white_space(s.subrange(0, from))
            &&& all_white_space(s.subrange(from + kept.len(), s.len() as int))
            &&& kept.len() > 0 ==> !white_space(kept[0]) && !white_space(kept.last())
        }),
{
    let tail = trim_start(s);
    let kept = trim(s);
    let from = s.len() - tail.len();
    lemma_trim_start_shape(s);
    lemma_trim_end_shape(tail);
    assert(s.subrange(from + kept.len(), s.len() as int) =~= tail.subrange(
        kept.len() as int,
        tail.len() as int,
    ));
}

/// Leading white space does not change what `trim_start` leaves.
pub proof fn lemma_trim_start_skips(pad: Seq<char>, s: Seq<char>)
    requires
        all_white_space(pad),
    ensures
        trim_start(pad + s) == trim_start(s),
    decreases pad.len(),
{
    if pad.len() > 0 {
        assert((pad + s).drop_first() =~= pad.drop_first() + s);
        lemma_trim_start_skips(pad.drop_first(), s);
    }
}

/// Trailing white space does not change what `trim_end` leaves.
pub proof fn lemma_trim_end_skips(s: Seq<char>, pad: Seq<char>)
    requires
        all_white_space(pad),
    ensures
        trim_end(s + pad) == trim_end(s),
    decreases pad.len(),
{
    if pad.len() > 0 {
        assert((s + pad).drop_last() =~= s + pad.drop_last());
        lemma_trim_end_skips(s, pad.drop_last());
    }
}

/// Where `s` holds a character that is not white space, `trim_start` never
/// reaches what follows `s`.
pub proof fn lemma_trim_start_stops(s: Seq<char>, tail: Seq<char>)
    requires
        !all_white_space(s),
    ensures
        trim_start(s + tail) == trim_start(s) + tail,
    decreases s.len(),
{
    if white_space(s[0]) {
        assert((s + tail).drop_first() =~= s.drop_first() + tail);
        let i = choose|i: int| 0 <= i < s.len() && !white_space(#[trigger] s[i]);
        assert(s.drop_first()[i - 1] == s[i]);
        lemma_trim_start_stops(s.drop_first(), tail);
    }
}

/// White space around a text does not change what `trim` leaves of it.
pub proof fn lemma_trim_ignores_padding(before: Seq<char>, s: Seq<char>, after: Seq<char>)
    requires
        all_white_space(before),
        all_white_space(after),
    ensures
        trim(before + s + after) == trim(s),
{
    assert(before + s + after =~= before + (s + after));
    lemma_trim_start_skips(before, s + after);
    if all_white_space(s) {
        lemma_trim_start_skips(s + after, Seq::empty());
        lemma_trim_start_skips(s, Seq::empty());
    } else {
        lemma_trim_start_stops(s, after);
        lemma_trim_end_skips(trim_start(s), after);
    }
}

/// The characters of `s`, in order, as a vector that can be indexed in
/// constant time.
pub fn chars_of(s: &str) -> (chars: Vec<char>)
    ensures
        chars@ == s@,
{
    let mut chars: Vec<char> = Vec::new();
    for c in it: s.chars()
        invariant
            it.seq() == s@,
            chars@ == s@.take(it.index() as int),
    {
        chars.push(c);
    }
    chars
}

/// Whether `pat` stands in `chars` at position `i`.
pub fn occurs_at_index(chars: &Vec<char>, pat: &Vec<char>, i: usize) -> (b: bool)
    ensures
        b == occurs_at(chars@, pat@, i as int),
{
    if pat.len() > chars.len() || i > chars.len() - pat.len() {
        return false;
    }
    let mut k: usize = 0;
    while k < pat.len()
        invariant
            k <= pat.len(),
            i + pat.len() <= chars.len(),
            forall|m: int| 0 <= m < k ==> chars@[i + m] == pat@[m],
        decreases pat.len() - k,
    {
        if chars[i + k] != pat[k] {
            return false;
        }
        k += 1;
    }
    proof {
        assert(chars@.subrange(i as int, i + pat@.len()) =~= pat@);
    }
    true
}

/// The first position at or after `from` at which `pat` stands in `chars`,
/// if there is one.
pub fn find_from(chars: &Vec<char>, pat: &Vec<char>, from: usize) -> (found: Option<usize>)
    ensures
        match found {
            Some(j) => first_occurrence(chars@, pat@, from as int, j as int),
            None => absent_from(chars@, pat@, from as int),
        },
{
    if pat.len() > chars.len() {
        return None;
    }
    let last: usize = chars.len() - pat.len();
    let mut j: usize = from;
    while j <= last
        invariant
            from <= j,
            last + pat.len() == chars.len(),
            forall|k: int| from <= k < j ==> !occurs_at(chars@, pat@, k),
        decreases last + 1 - j,
    {
        if occurs_at_index(chars, pat, j) {
            return Some(j);
        }
        if j == last {
            return None;
        }
        j += 1;
    }
    None
}

/// The position in `lo..=hi` at which the leading white space of
/// `chars[lo..hi]` ends.
pub(crate) fn skip_white_space(chars: &Vec<char>, lo: usize, hi: usize) -> (a: usize)
    requires
        lo <= hi <= chars.len(),
    ensures
        lo <= a <= hi,
        chars@.subrange(a as int, hi as int) == trim_start(chars@.subrange(lo as int, hi as int)),
{
    let mut a: usize = lo;
    while a < hi && is_white_space(chars[a])
        invariant
            lo <= a <= hi <= chars.len(),
            trim_start(chars@.subrange(a as int, hi as int)) == trim_start(
                chars@.subrange(lo as int, hi as int),
            ),
        decreases hi - a,
    {
        proof {
            let rest = chars@.subrange(a as int, hi as int);
            assert(rest.drop_first() =~= chars@.subrange(a + 1, hi as int));
        }
        a += 1;
    }
    a
}

/// The position in `lo..=hi` at which the trailing white space of
/// `chars[lo..hi]` begins.
pub(crate) fn drop_white_space(chars: &Vec<char>, lo: usize, hi: usize) -> (b: usize)
    requires
        lo <= hi <= chars.len(),
    ensures
        lo <= b <= hi,
        chars@.subrange(lo as int, b as int) == trim_end(chars@.subrange(lo as int, hi as int)),
{
    let mut b: usize = hi;
    while b > lo && is_white_space(chars[b - 1])
        invariant
            lo <= b <= hi <= chars.len(),
            trim_end(chars@.subrange(lo as int, b as int)) == trim_end(
                chars@.subrange(lo as int, hi as int),
            ),
        decreases b - lo,
    {
        proof {
            let rest = chars@.subrange(lo as int, b as int);
            assert(rest.drop_last() =~= chars@.subrange(lo as int, b - 1));
        }
        b -= 1;
    }
    b
}

/// The bounds of `chars[lo..hi]` once its white space has been trimmed from
/// both ends.
pub(crate) fn trim_range(chars: &Vec<char>, lo: usize, hi: usize) -> (r: (usize, usize))
    requires
        lo <= hi <= chars.len(),
    ensures
        lo <= r.0 <= r.1 <= hi,
        chars@.subrange(r.0 as int, r.1 as int) == trim(chars@.subrange(lo as int, hi as int)),
{
    let a = skip_white_space(chars, lo, hi);
    let b = drop_white_space(chars, a, hi);
    (a, b)
}

} // verus!
