//! Approximate matching: the pattern's characters must occur in the line in
//! order, with any gaps between them.
//!
//! The decision is taken by the skim scorer of the `fuzzy_matcher` crate. It
//! scores a line against a pattern and finds nothing exactly when the
//! pattern is no ordered subsequence of the line. The score itself plays no
//! part here: a line that is too long to be scored safely is judged by the
//! same rule without a score.

use vstd::prelude::*;
use fuzzy_matcher::skim::SkimMatcherV2;
use fuzzy_matcher::FuzzyMatcher;
use crate::text::chars_of;

verus! {

/// The longest line, in characters, that is handed to the scorer. The
/// scorer adds up its scores in 32-bit integers, a few dozen points per
/// character at most; below this length no sum can leave their range.
pub const MAX_SCORED_CHARS: usize = 16_777_216;

/// `c` is one of the letters `A` to `Z`.
pub open spec fn is_ascii_upper(c: char) -> bool {
    'A' <= c <= 'Z'
}

/// `c`, with the letters `A` to `Z` turned into `a` to `z`.
pub open spec fn ascii_fold(c: char) -> char {
    if is_ascii_upper(c) {
        ((c as u32) + 32) as char
    } else {
        c
    }
}

/// The scorer's equality of a line's character and a pattern's character:
/// identity when it respects case, identity up to the case of ASCII letters
/// when it does not.
pub open spec fn chars_agree(a: char, b: char, case_sensitive: bool) -> bool {
    if case_sensitive {
        a == b
    } else {
        ascii_fold(a) == ascii_fold(b)
    }
}

/// `pattern` can be read off `text` from left to right: each character of
/// the pattern agrees with a character of the text, in the same order.
pub open spec fn is_subsequence(pattern: Seq<char>, text: Seq<char>, case_sensitive: bool) -> bool
    decreases text.len(),
{
    if pattern.len() == 0 {
        true
    } else if text.len() == 0 {
        false
    } else if chars_agree(text[0], pattern[0], case_sensitive) {
        is_subsequence(pattern.drop_first(), text.drop_first(), case_sensitive)
    } else {
        is_subsequence(pattern, text.drop_first(), case_sensitive)
    }
}

/// `s` holds one of the letters `A` to `Z`.
pub open spec fn has_ascii_upper(s: Seq<char>) -> bool {
    exists|i: int| 0 <= i < s.len() && is_ascii_upper(#[trigger] s[i])
}

/// The scorer finds `pattern` in `choice`. It respects case exactly when
/// the pattern holds an upper-case ASCII letter.
pub open spec fn skim_accepts(choice: Seq<char>, pattern: Seq<char>) -> bool {
    is_subsequence(pattern, choice, has_ascii_upper(pattern))
}

/// Scores `choice` against `pattern` with `SkimMatcherV2::default()` and
/// its `fuzzy_match`, for a `choice` of at most `MAX_SCORED_CHARS`
/// characters. The contract says when a score comes back, not which: there
/// is one exactly when the pattern is empty or its characters occur in
/// `choice` in order, compared as `chars_agree` does, with case respected
/// exactly when the pattern holds an upper-case ASCII letter.
#[verifier::external_body]
pub(crate) fn skim_score(choice: &str, pattern: &str) -> (score: Option<i64>)
    requires
        choice@.len() <= MAX_SCORED_CHARS,
    ensures
        score is Some <==> skim_accepts(choice@, pattern@),
{
    SkimMatcherV2::default().fuzzy_match(choice, pattern)
}

/// `c`, with the letters `A` to `Z` turned into `a` to `z`.
fn fold_ascii(c: char) -> (folded: char)
    ensures
        folded == ascii_fold(c),
{
    if 'A' <= c && c <= 'Z' {
        ((c as u8) + 32) as char
    } else {
        c
    }
}

/// Whether `s` holds one of the letters `A` to `Z`.
fn holds_ascii_upper(s: &[char]) -> (found: bool)
    ensures
        found == has_ascii_upper(s@),
{
    let mut i: usize = 0;
    while i < s.len()
        invariant
            i <= s.len(),
            forall|j: int| 0 <= j < i ==> !is_ascii_upper(#[trigger] s@[j]),
        decreases s.len() - i,
    {
        if 'A' <= s[i] && s[i] <= 'Z' {
            return true;
        }
        i += 1;
    }
    false
}

/// Whether the characters of `pattern` occur in `text` in order.
pub fn is_subsequence_of(pattern: &[char], text: &[char], case_sensitive: bool) -> (found: bool)
    ensures
        found == is_subsequence(pattern@, text@, case_sensitive),
{
    let mut matched: usize = 0;
    let mut at: usize = 0;
    assert(pattern@.skip(0) =~= pattern@);
    assert(text@.skip(0) =~= text@);
    while at < text.len() && matched < pattern.len()
        invariant
            at <= text.len(),
            matched <= pattern.len(),
            is_subsequence(pattern@, text@, case_sensitive) == is_subsequence(
                pattern@.skip(matched as int),
                text@.skip(at as int),
                case_sensitive,
            ),
        decreases text.len() - at,
    {
        let agree = if case_sensitive {
            text[at] == pattern[matched]
        } else {
            fold_ascii(text[at]) == fold_ascii(pattern[matched])
        };
        proof {
            assert(text@.skip(at as int).drop_first() =~= text@.skip(at + 1));
            assert(pattern@.skip(matched as int).drop_first() =~= pattern@.skip(matched + 1));
        }
        if agree {
            matched += 1;
        }
        at += 1;
    }
    matched == pattern.len()
}

/// Whether the scorer finds `pattern` in `choice`. A `choice` within the
/// scorer's range is scored; of a longer one only the decision is taken,
/// which does not depend on the score.
pub fn fuzzy_found(choice: &str, pattern: &str) -> (found: bool)
    ensures
        found == skim_accepts(choice@, pattern@),
{
    if choice.unicode_len() <= MAX_SCORED_CHARS {
        skim_score(choice, pattern).is_some()
    } else {
        let text = chars_of(choice);
        let wanted = chars_of(pattern);
        let case_sensitive = holds_ascii_upper(wanted.as_slice());
        is_subsequence_of(wanted.as_slice(), text.as_slice(), case_sensitive)
    }
}

/// A subsequence stays one when the pattern loses its first character.
pub proof fn subsequence_without_pattern_head(pattern: Seq<char>, text: Seq<char>, case_sensitive: bool)
    requires
        pattern.len() > 0,
        is_subsequence(pattern, text, case_sensitive),
    ensures
        is_subsequence(pattern.drop_first(), text, case_sensitive),
    decreases text.len(),
{
    let shorter = pattern.drop_first();
    let rest = text.drop_first();
    if shorter.len() > 0 {
        if chars_agree(text[0], pattern[0], case_sensitive) {
            subsequence_without_pattern_head(shorter, rest, case_sensitive);
        } else {
            subsequence_without_pattern_head(pattern, rest, case_sensitive);
            if chars_agree(text[0], shorter[0], case_sensitive) {
                subsequence_without_pattern_head(shorter, rest, case_sensitive);
            }
        }
    }
}

/// A subsequence of a text's tail is a subsequence of the text.
pub proof fn subsequence_of_tail(pattern: Seq<char>, text: Seq<char>, from: int, case_sensitive: bool)
    requires
        0 <= from <= text.len(),
        is_subsequence(pattern, text.skip(from), case_sensitive),
    ensures
        is_subsequence(pattern, text, case_sensitive),
    decreases from,
{
    if from == 0 {
        assert(text.skip(0) =~= text);
    } else {
        let tail = text.skip(from - 1);
        assert(tail.drop_first() =~= text.skip(from));
        if pattern.len() > 0 && chars_agree(tail[0], pattern[0], case_sensitive) {
            subsequence_without_pattern_head(pattern, text.skip(from), case_sensitive);
        }
        subsequence_of_tail(pattern, text, from - 1, case_sensitive);
    }
}

/// A text's beginning is a subsequence of the text.
pub proof fn prefix_is_subsequence(text: Seq<char>, len: int, case_sensitive: bool)
    requires
        0 <= len <= text.len(),
    ensures
        is_subsequence(text.take(len), text, case_sensitive),
    decreases len,
{
    if len > 0 {
        assert(text.take(len)[0] == text[0]);
        assert(text.take(len).drop_first() =~= text.drop_first().take(len - 1));
        prefix_is_subsequence(text.drop_first(), len - 1, case_sensitive);
    }
}

/// A contiguous occurrence is an occurrence with gaps, whether or not case
/// is respected.
pub proof fn substring_is_subsequence(needle: Seq<char>, hay: Seq<char>, case_sensitive: bool)
    requires
        crate::text::is_substring(needle, hay),
    ensures
        is_subsequence(needle, hay, case_sensitive),
{
    let at = choose|at: int| crate::text::occurs_at(needle, hay, at);
    let tail = hay.skip(at);
    assert(tail.take(needle.len() as int) =~= hay.subrange(at, at + needle.len()));
    prefix_is_subsequence(tail, needle.len() as int, case_sensitive);
    subsequence_of_tail(needle, hay, at, case_sensitive);
}

/// What is found with case respected is found without.
pub proof fn subsequence_ignoring_case(pattern: Seq<char>, text: Seq<char>)
    requires
        is_subsequence(pattern, text, true),
    ensures
        is_subsequence(pattern, text, false),
    decreases text.len(),
{
    if pattern.len() > 0 {
        let rest = text.drop_first();
        if text[0] == pattern[0] {
            subsequence_ignoring_case(pattern.drop_first(), rest);
        } else {
            subsequence_ignoring_case(pattern, rest);
            if chars_agree(text[0], pattern[0], false) {
                subsequence_without_pattern_head(pattern, rest, false);
            }
        }
    }
}

/// `positions` places the pattern in the text: one offset into the text for
/// each character of the pattern, each later than the one before, and at
/// each the text's character agrees with the pattern's.
pub open spec fn embeds(
    pattern: Seq<char>,
    text: Seq<char>,
    positions: Seq<int>,
    case_sensitive: bool,
) -> bool {
    &&& positions.len() == pattern.len()
    &&& forall|i: int|
        0 <= i < positions.len() ==> 0 <= #[trigger] positions[i] < text.len() && chars_agree(
            text[positions[i]],
            pattern[i],
            case_sensitive,
        )
    &&& forall|i: int, j: int|
        0 <= i < j < positions.len() ==> #[trigger] positions[i] < #[trigger] positions[j]
}

/// The positions moved by `by`.
pub open spec fn shifted(positions: Seq<int>, by: int) -> Seq<int> {
    Seq::new(positions.len(), |i: int| positions[i] + by)
}

/// A subsequence has a place in the text: the offsets at which its
/// characters are found, in rising order.
pub proof fn subsequence_has_positions(pattern: Seq<char>, text: Seq<char>, case_sensitive: bool) -> (positions:
    Seq<int>)
    requires
        is_subsequence(pattern, text, case_sensitive),
    ensures
        embeds(pattern, text, positions, case_sensitive),
    decreases text.len(),
{
    if pattern.len() == 0 {
        Seq::empty()
    } else {
        let rest = text.drop_first();
        if chars_agree(text[0], pattern[0], case_sensitive) {
            let inner = subsequence_has_positions(pattern.drop_first(), rest, case_sensitive);
            let positions = seq![0int] + shifted(inner, 1);
            assert forall|i: int| 0 <= i < positions.len() implies 0 <= #[trigger] positions[i]
                < text.len() && chars_agree(text[positions[i]], pattern[i], case_sensitive) by {
                if i > 0 {
                    assert(positions[i] == inner[i - 1] + 1);
                    assert(rest[inner[i - 1]] == text[positions[i]]);
                    assert(pattern.drop_first()[i - 1] == pattern[i]);
                }
            }
            assert forall|i: int, j: int| 0 <= i < j < positions.len() implies #[trigger] positions[i]
                < #[trigger] positions[j] by {
                assert(positions[j] == inner[j - 1] + 1);
                if i > 0 {
                    assert(positions[i] == inner[i - 1] + 1);
                }
            }
            positions
        } else {
            let inner = subsequence_has_positions(pattern, rest, case_sensitive);
            let positions = shifted(inner, 1);
            assert forall|i: int| 0 <= i < positions.len() implies 0 <= #[trigger] positions[i]
                < text.len() && chars_agree(text[positions[i]], pattern[i], case_sensitive) by {
                assert(rest[inner[i]] == text[positions[i]]);
            }
            positions
        }
    }
}

/// A pattern that has a place in the text is a subsequence of it.
pub proof fn positions_make_subsequence(
    pattern: Seq<char>,
    text: Seq<char>,
    positions: Seq<int>,
    case_sensitive: bool,
)
    requires
        embeds(pattern, text, positions, case_sensitive),
    ensures
        is_subsequence(pattern, text, case_sensitive),
    decreases text.len(),
{
    if pattern.len() > 0 {
        assert(0 <= positions[0] < text.len());
        let rest = text.drop_first();
        if chars_agree(text[0], pattern[0], case_sensitive) {
            let shorter = pattern.drop_first();
            let inner = shifted(positions.drop_first(), -1);
            assert forall|i: int| 0 <= i < inner.len() implies 0 <= #[trigger] inner[i] < rest.len()
                && chars_agree(rest[inner[i]], shorter[i], case_sensitive) by {
                assert(inner[i] == positions[i + 1] - 1);
                assert(positions[0] < positions[i + 1]);
                assert(rest[inner[i]] == text[positions[i + 1]]);
            }
            assert forall|i: int, j: int| 0 <= i < j < inner.len() implies #[trigger] inner[i]
                < #[trigger] inner[j] by {
                assert(positions[i + 1] < positions[j + 1]);
            }
            positions_make_subsequence(shorter, rest, inner, case_sensitive);
        } else {
            let inner = shifted(positions, -1);
            assert forall|i: int| 0 <= i < inner.len() implies 0 <= #[trigger] inner[i] < rest.len()
                && chars_agree(rest[inner[i]], pattern[i], case_sensitive) by {
                assert(inner[i] == positions[i] - 1);
                if i > 0 {
                    assert(positions[0] < positions[i]);
                }
                assert(rest[inner[i]] == text[positions[i]]);
            }
            assert forall|i: int, j: int| 0 <= i < j < inner.len() implies #[trigger] inner[i]
                < #[trigger] inner[j] by {
                assert(positions[i] < positions[j]);
            }
            positions_make_subsequence(pattern, rest, inner, case_sensitive);
        }
    }
}

} // verus!
