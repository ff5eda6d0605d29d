//! Scoring of text: Unicode whitespace, words and line splitting.

use vstd::prelude::*;

verus! {

/// The code points that carry the Unicode `White_Space` property.
pub open spec fn is_white_space(c: char) -> bool {
    let u: u32 = c as u32;
    ||| 0x09 <= u <= 0x0d
    ||| u == 0x20
    ||| u == 0x85
    ||| u == 0xa0
    ||| u == 0x1680
    ||| 0x2000 <= u <= 0x200a
    ||| u == 0x2028
    ||| u == 0x2029
    ||| u == 0x202f
    ||| u == 0x205f
    ||| u == 0x3000
}

/// Whether position `i` of `cs` is the first character of a word: a
/// non-whitespace character at the start or right after whitespace.
pub open spec fn starts_word(cs: Seq<char>, i: int) -> bool {
    &&& !is_white_space(cs[i])
    &&& (i == 0 || is_white_space(cs[i - 1]))
}

/// The number of maximal runs of non-whitespace characters in `cs`.
pub open spec fn word_count(cs: Seq<char>) -> nat
    decreases cs.len(),
{
    if cs.len() == 0 {
        0
    } else {
        word_count(cs.drop_last()) + if starts_word(cs, cs.len() - 1) {
            1nat
        } else {
            0nat
        }
    }
}

/// Tells whether `c` has the Unicode `White_Space` property.
pub fn is_whitespace(c: char) -> (r: bool)
    ensures
        r == is_white_space(c),
{
    let u: u32 = c as u32;
    (0x09 <= u && u <= 0x0d) || u == 0x20 || u == 0x85 || u == 0xa0 || u == 0x1680 || (0x2000
        <= u && u <= 0x200a) || u == 0x2028 || u == 0x2029 || u == 0x202f || u == 0x205f || u
        == 0x3000
}

proof fn lemma_word_count_prefix(cs: Seq<char>, i: int)
    requires
        0 <= i < cs.len(),
    ensures
        word_count(cs.take(i + 1)) == word_count(cs.take(i)) + if starts_word(cs, i) {
            1nat
        } else {
            0nat
        },
{
    let p = cs.take(i + 1);
    assert(p.drop_last() =~= cs.take(i));
    assert(starts_word(p, i) == starts_word(cs, i));
}

/// Counts the words of `cs`: the maximal runs of characters that are not
/// whitespace.
pub fn count_words(cs: &[char]) -> (r: usize)
    ensures
        r == word_count(cs@),
{
    let mut n: usize = 0;
    let mut i: usize = 0;
    while i < cs.len()
        invariant
            i <= cs@.len(),
            n == word_count(cs@.take(i as int)),
            n <= i,
        decreases cs@.len() - i,
    {
        proof {
            lemma_word_count_prefix(cs@, i as int);
        }
        let ws = is_whitespace(cs[i]);
        if !ws && (i == 0 || is_whitespace(cs[i - 1])) {
            n = n + 1;
        }
        i = i + 1;
    }
    assert(cs@.take(cs@.len() as int) =~= cs@);
    n
}

/// The lines of `s`, each with its terminating newline when it has one: a
/// byte opens a new line when it comes first or right after a newline, and
/// otherwise extends the line before it.
pub open spec fn split_lines(s: Seq<u8>) -> Seq<Seq<u8>>
    decreases s.len(),
{
    if s.len() == 0 {
        seq![]
    } else {
        let init = split_lines(s.drop_last());
        let b = s.last();
        if init.len() == 0 || init.last().last() == NEWLINE {
            init.push(seq![b])
        } else {
            init.drop_last().push(init.last().push(b))
        }
    }
}

/// The byte that ends a line.
pub const NEWLINE: u8 = 10;

/// The last line of a non-empty input is non-empty and ends with its last byte.
pub proof fn lemma_split_lines_last(s: Seq<u8>)
    requires
        s.len() > 0,
    ensures
        split_lines(s).len() > 0,
        split_lines(s).last().len() > 0,
        split_lines(s).last().last() == s.last(),
{
}

/// A line that starts at a line boundary `k` and runs to `e` without an
/// inner newline is the last line of the first `e` bytes.
pub proof fn lemma_split_lines_append(s: Seq<u8>, k: int, e: int)
    requires
        0 <= k < e <= s.len(),
        k == 0 || s[k - 1] == NEWLINE,
        forall|j: int| k <= j < e - 1 ==> s[j] != NEWLINE,
    ensures
        split_lines(s.take(e)) == split_lines(s.take(k)).push(s.subrange(k, e)),
    decreases e - k,
{
    let t = s.take(e);
    assert(t.drop_last() =~= s.take(e - 1));
    if e == k + 1 {
        if k > 0 {
            lemma_split_lines_last(s.take(k));
        }
        assert(seq![t.last()] =~= s.subrange(k, e));
    } else {
        lemma_split_lines_append(s, k, e - 1);
        let init = split_lines(s.take(e - 1));
        assert(init.last() == s.subrange(k, e - 1));
        assert(init.last().last() == s[e - 2]);
        assert(init.drop_last() =~= split_lines(s.take(k)));
        assert(init.last().push(t.last()) =~= s.subrange(k, e));
    }
}

/// The characters of `bytes` read as UTF-8, each ill-formed sequence
/// replaced by U+FFFD.
pub uninterp spec fn lossy_chars(bytes: Seq<u8>) -> Seq<char>;

/// Relies on `String::from_utf8_lossy`: it decodes `bytes` as UTF-8 and puts
/// U+FFFD in place of each ill-formed sequence, from the bytes alone.
#[verifier::external_body]
pub(crate) fn decode_lossy(bytes: &[u8]) -> (r: Vec<char>)
    ensures
        r@ == lossy_chars(bytes@),
{
    String::from_utf8_lossy(bytes).chars().collect()
}

} // verus!
