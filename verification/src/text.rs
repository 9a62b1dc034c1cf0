//! Text of a log line: decoding, trimming and splitting into words.
//!
//! Whitespace is what carries the Unicode property `White_Space`.

use vstd::prelude::*;
use vstd::string::{StrSliceExecFns, StringExecFns, StringSliceAdditionalSpecFns};
use vstd::std_specs::iter::IteratorSpec;
use vstd::utf8::valid_utf8;

verus! {

/// The characters with the Unicode property `White_Space`.
pub open spec fn is_whitespace(c: char) -> bool {
    let u = c as u32;
    ||| 0x09 <= u <= 0x0D
    ||| u == 0x20
    ||| u == 0x85
    ||| u == 0xA0
    ||| u == 0x1680
    ||| 0x2000 <= u <= 0x200A
    ||| u == 0x2028
    ||| u == 0x2029
    ||| u == 0x202F
    ||| u == 0x205F
    ||| u == 0x3000
}

/// `s` without its leading whitespace.
pub open spec fn trim_start(s: Seq<char>) -> Seq<char>
    decreases s.len(),
{
    if s.len() > 0 && is_whitespace(s.first()) {
        trim_start(s.drop_first())
    } else {
        s
    }
}

/// `s` without its trailing whitespace.
pub open spec fn trim_end(s: Seq<char>) -> Seq<char>
    decreases s.len(),
{
    if s.len() > 0 && is_whitespace(s.last()) {
        trim_end(s.drop_last())
    } else {
        s
    }
}

/// `s` without the whitespace at either end.
pub open spec fn trimmed(s: Seq<char>) -> Seq<char> {
    trim_end(trim_start(s))
}

/// Length of the run of characters before the first whitespace of `s`.
pub open spec fn word_len(s: Seq<char>) -> int
    decreases s.len(),
{
    if s.len() == 0 || is_whitespace(s.first()) {
        0
    } else {
        1 + word_len(s.drop_first())
    }
}

/// The words of `s`: its maximal runs of characters that are not whitespace,
/// in order.
pub open spec fn words(s: Seq<char>) -> Seq<Seq<char>>
    decreases s.len(),
    via words_decreases
{
    if s.len() == 0 {
        Seq::empty()
    } else if is_whitespace(s.first()) {
        words(s.drop_first())
    } else {
        seq![s.take(word_len(s))] + words(s.skip(word_len(s)))
    }
}

#[via_fn]
proof fn words_decreases(s: Seq<char>) {
    lemma_word_len_bounds(s);
}

/// A word's length lies within the text, and is positive where the text
/// begins with a character that is not whitespace.
pub proof fn lemma_word_len_bounds(s: Seq<char>)
    ensures
        0 <= word_len(s) <= s.len(),
        s.len() > 0 && !is_whitespace(s.first()) ==> word_len(s) >= 1,
    decreases s.len(),
{
    if s.len() > 0 && !is_whitespace(s.first()) {
        lemma_word_len_bounds(s.drop_first());
    }
}

/// The words `w` with a single space between neighbours.
pub open spec fn joined(w: Seq<Seq<char>>) -> Seq<char>
    decreases w.len(),
{
    if w.len() == 0 {
        Seq::empty()
    } else if w.len() == 1 {
        w[0]
    } else {
        joined(w.drop_last()) + seq![' '] + w.last()
    }
}

/// The parts of `s` that the ranges `ranges` mark, a range being the index
/// of its first character and the index behind its last.
pub open spec fn marked(s: Seq<char>, ranges: Seq<(usize, usize)>) -> Seq<Seq<char>> {
    ranges.map_values(|range: (usize, usize)| s.subrange(range.0 as int, range.1 as int))
}

/// `core::str::Utf8Error`, what decoding fails with. Nothing is known of
/// what it holds.
#[verifier::external_type_specification]
#[verifier::external_body]
pub struct ExUtf8Error(core::str::Utf8Error);

/// `core::str::from_utf8` accepts exactly the byte strings that are
/// well-formed UTF-8, and then gives the text whose encoding they are.
pub assume_specification[ core::str::from_utf8 ](v: &[u8]) -> (r: Result<
    &str,
    core::str::Utf8Error,
>)
    ensures
        r is Ok <==> valid_utf8(v@),
        r matches Ok(s) ==> s.spec_bytes() == v@,
;

/// Tells whether `c` is whitespace.
pub fn is_space(c: char) -> (space: bool)
    ensures
        space == is_whitespace(c),
{
    let u = c as u32;
    (0x09 <= u && u <= 0x0D) || u == 0x20 || u == 0x85 || u == 0xA0 || u == 0x1680 || (0x2000 <= u
        && u <= 0x200A) || u == 0x2028 || u == 0x2029 || u == 0x202F || u == 0x205F || u == 0x3000
}

/// Cuts the whitespace off both ends of `s`.
pub fn trim(s: &str) -> (r: &str)
    ensures
        r@ == trimmed(s@),
{
    let len = s.unicode_len();
    let mut chars = s.chars();
    let mut i: usize = 0;
    let mut first: usize = 0;
    let mut end: usize = 0;
    loop
        invariant_except_break
            chars.obeys_prophetic_iter_laws(),
            chars.remaining() == s@.skip(i as int),
        invariant
            len == s@.len(),
            first <= i <= len,
            end <= i,
            end == 0 ==> first == i,
            end > 0 ==> first < end,
            forall|j: int| 0 <= j < first ==> is_whitespace(s@[j]),
            forall|j: int| end <= j < i ==> is_whitespace(s@[j]),
            end > 0 ==> !is_whitespace(s@[first as int]) && !is_whitespace(s@[end - 1]),
        ensures
            i == len,
        decreases len - i,
    {
        let c = match chars.next() {
            Some(c) => c,
            None => {
                break;
            },
        };
        if !is_space(c) {
            end = i + 1;
        } else if end == 0 {
            first = i + 1;
        }
        i += 1;
    }
    if end == 0 {
        end = first;
    }
    proof {
        lemma_trim_start_is(s@, first as int);
        lemma_trim_end_is(s@.skip(first as int), end - first);
    }
    s.substring_char(first, end)
}

/// Finds the words of `s`: for each word, in order, the index of its first
/// character and the index behind its last.
pub fn word_ranges(s: &str) -> (ranges: Vec<(usize, usize)>)
    ensures
        marked(s@, ranges@) == words(s@),
        forall|k: int|
            0 <= k < ranges.len() ==> (#[trigger] ranges[k]).0 < ranges[k].1 <= s@.len(),
{
    let len = s.unicode_len();
    let mut chars = s.chars();
    let mut ranges: Vec<(usize, usize)> = Vec::new();
    let mut i: usize = 0;
    let mut start: usize = 0;
    let mut in_word = false;
    assert(s@.skip(0) =~= s@);
    loop
        invariant_except_break
            chars.obeys_prophetic_iter_laws(),
            chars.remaining() == s@.skip(i as int),
        invariant
            len == s@.len(),
            i <= len,
            in_word ==> start < i,
            in_word ==> forall|j: int| start <= j < i ==> !is_whitespace(s@[j]),
            words(s@) == marked(s@, ranges@) + words(
                s@.skip(
                    if in_word {
                        start as int
                    } else {
                        i as int
                    },
                ),
            ),
            forall|k: int|
                0 <= k < ranges.len() ==> (#[trigger] ranges[k]).0 < ranges[k].1 <= s@.len(),
        ensures
            i == len,
        decreases len - i,
    {
        let c = match chars.next() {
            Some(c) => c,
            None => {
                break;
            },
        };
        if is_space(c) {
            if in_word {
                let ghost before = ranges@;
                proof {
                    lemma_word_ends(s@, marked(s@, before), start as int, i as int);
                }
                ranges.push((start, i));
                in_word = false;
                assert(marked(s@, ranges@) =~= marked(s@, before).push(
                    s@.subrange(start as int, i as int),
                ));
            }
            proof {
                assert(s@.skip(i as int).drop_first() =~= s@.skip(i + 1));
            }
        } else if !in_word {
            start = i;
            in_word = true;
        }
        i += 1;
    }
    if in_word {
        let ghost before = ranges@;
        proof {
            lemma_word_ends(s@, marked(s@, before), start as int, len as int);
        }
        ranges.push((start, len));
        assert(marked(s@, ranges@) =~= marked(s@, before).push(
            s@.subrange(start as int, len as int),
        ));
    }
    ranges
}

/// Joins the parts of `s` that `ranges[from..to]` mark with single spaces.
pub(crate) fn join_marked(s: &str, ranges: &Vec<(usize, usize)>, from: usize, to: usize) -> (r:
    String)
    requires
        from <= to <= ranges.len(),
        forall|k: int|
            0 <= k < ranges.len() ==> (#[trigger] ranges[k]).0 <= ranges[k].1 <= s@.len(),
    ensures
        r@ == joined(marked(s@, ranges@).subrange(from as int, to as int)),
{
    let mut out = String::new();
    let mut i: usize = from;
    while i < to
        invariant
            from <= i <= to <= ranges.len(),
            forall|k: int|
                0 <= k < ranges.len() ==> (#[trigger] ranges[k]).0 <= ranges[k].1 <= s@.len(),
            out@ == joined(marked(s@, ranges@).subrange(from as int, i as int)),
        decreases to - i,
    {
        proof {
            reveal_strlit(" ");
            let next = marked(s@, ranges@).subrange(from as int, i + 1);
            assert(next.drop_last() == marked(s@, ranges@).subrange(from as int, i as int));
        }
        if i > from {
            out.append(" ");
        }
        let range = ranges[i];
        out.append(s.substring_char(range.0, range.1));
        i += 1;
    }
    out
}

/// Leading whitespace ends at the first character that is none.
pub proof fn lemma_trim_start_is(s: Seq<char>, first: int)
    requires
        0 <= first <= s.len(),
        forall|j: int| 0 <= j < first ==> is_whitespace(s[j]),
        first < s.len() ==> !is_whitespace(s[first]),
    ensures
        trim_start(s) == s.skip(first),
    decreases s.len(),
{
    if first > 0 {
        lemma_trim_start_is(s.drop_first(), first - 1);
    }
}

/// Trailing whitespace begins behind the last character that is none.
pub proof fn lemma_trim_end_is(s: Seq<char>, end: int)
    requires
        0 <= end <= s.len(),
        forall|j: int| end <= j < s.len() ==> is_whitespace(s[j]),
        end > 0 ==> !is_whitespace(s[end - 1]),
    ensures
        trim_end(s) == s.take(end),
    decreases s.len(),
{
    if end < s.len() {
        lemma_trim_end_is(s.drop_last(), end);
    }
}

/// A word is as long as the run of characters in front of the first
/// whitespace.
pub proof fn lemma_word_len_is(s: Seq<char>, n: int)
    requires
        0 <= n <= s.len(),
        forall|j: int| 0 <= j < n ==> !is_whitespace(s[j]),
        n < s.len() ==> is_whitespace(s[n]),
    ensures
        word_len(s) == n,
    decreases s.len(),
{
    if n > 0 {
        lemma_word_len_is(s.drop_first(), n - 1);
    }
}

/// Where a word of `s` begins at `start` and ends in front of `end`, the
/// words from `start` on are that word and the words from `end` on.
pub proof fn lemma_word_ends(s: Seq<char>, found: Seq<Seq<char>>, start: int, end: int)
    requires
        0 <= start < end <= s.len(),
        forall|j: int| start <= j < end ==> !is_whitespace(s[j]),
        end < s.len() ==> is_whitespace(s[end]),
        words(s) == found + words(s.skip(start)),
    ensures
        words(s) == found.push(s.subrange(start, end)) + words(s.skip(end)),
        end == s.len() ==> words(s) == found.push(s.subrange(start, end)),
{
    let tail = s.skip(start);
    lemma_word_len_is(tail, end - start);
    assert(tail.take(end - start) =~= s.subrange(start, end));
    assert(tail.skip(end - start) =~= s.skip(end));
    assert(found + (seq![s.subrange(start, end)] + words(s.skip(end))) =~= found.push(
        s.subrange(start, end),
    ) + words(s.skip(end)));
    if end == s.len() {
        assert(found.push(s.subrange(start, end)) + words(s.skip(end)) =~= found.push(
            s.subrange(start, end),
        ));
    }
}

} // verus!
