//! What holds of every search, proved from the definitions that the
//! contracts of the library use.

use vstd::prelude::*;
use vstd::utf8::valid_utf8;
use crate::directory::{directory_matches, entry_scan, reported, EntryView};
use crate::fuzzy::{has_ascii_upper, is_subsequence, subsequence_ignoring_case, substring_is_subsequence};
use crate::lines::{line_end, line_end_bounds, line_end_is_first_line_feed, lines_of, without_cr};
use crate::matcher::{
    content_scan,
    exact_hit,
    file_scan,
    fuzzy_hit,
    line_hit,
    matches_in,
    numbered,
    record_of,
};
use crate::report::{MatchView, SkipReason};
use crate::text::lowercase;
use crate::walker::should_skip;

verus! {

/// The matches of a file are those of all lines but the last, followed by
/// the record of the last line where it matches.
pub proof fn matches_by_last_line(
    path: Seq<char>,
    lines: Seq<Seq<char>>,
    query: Seq<char>,
    fuzzy: bool,
)
    requires
        lines.len() > 0,
    ensures
        matches_in(path, lines, query, fuzzy) == matches_in(path, lines.drop_last(), query, fuzzy)
            + if line_hit(lines.last(), query, fuzzy) {
            seq![record_of(path, lines.last(), lines.len() - 1)]
        } else {
            Seq::empty()
        },
{
    reveal(Seq::filter);
    assert(numbered(path, lines).drop_last() =~= numbered(path, lines.drop_last()));
}

/// Each reported match stands for a line that matches: it carries the
/// file's path, a line number from 1 to the number of lines, and the text of
/// the line with that number.
pub proof fn reported_lines_match(
    path: Seq<char>,
    lines: Seq<Seq<char>>,
    query: Seq<char>,
    fuzzy: bool,
    k: int,
)
    requires
        0 <= k < matches_in(path, lines, query, fuzzy).len(),
    ensures
        ({
            let found = matches_in(path, lines, query, fuzzy)[k];
            &&& 1 <= found.line_number <= lines.len()
            &&& found == record_of(path, lines[found.line_number - 1], found.line_number - 1)
            &&& line_hit(found.line_text, query, fuzzy)
        }),
    decreases lines.len(),
{
    if lines.len() == 0 {
        reveal(Seq::filter);
    } else {
        matches_by_last_line(path, lines, query, fuzzy);
        let before = matches_in(path, lines.drop_last(), query, fuzzy);
        if k < before.len() {
            reported_lines_match(path, lines.drop_last(), query, fuzzy, k);
        }
    }
}

/// Each line that matches is reported, under its position counted from 1.
pub proof fn matching_lines_are_reported(
    path: Seq<char>,
    lines: Seq<Seq<char>>,
    query: Seq<char>,
    fuzzy: bool,
    index: int,
)
    requires
        0 <= index < lines.len(),
        line_hit(lines[index], query, fuzzy),
    ensures
        matches_in(path, lines, query, fuzzy).contains(record_of(path, lines[index], index)),
    decreases lines.len(),
{
    matches_by_last_line(path, lines, query, fuzzy);
    let before = matches_in(path, lines.drop_last(), query, fuzzy);
    let all = matches_in(path, lines, query, fuzzy);
    if index < lines.len() - 1 {
        matching_lines_are_reported(path, lines.drop_last(), query, fuzzy, index);
        let k = choose|k: int|
            0 <= k < before.len() && before[k] == record_of(path, lines.drop_last()[index], index);
        assert(all[k] == record_of(path, lines[index], index));
    } else {
        assert(all[before.len() as int] == record_of(path, lines[index], index));
    }
}

/// Matches are reported in line order: a later match has a larger line
/// number.
pub proof fn reported_in_line_order(
    path: Seq<char>,
    lines: Seq<Seq<char>>,
    query: Seq<char>,
    fuzzy: bool,
    j: int,
    k: int,
)
    requires
        0 <= j < k < matches_in(path, lines, query, fuzzy).len(),
    ensures
        matches_in(path, lines, query, fuzzy)[j].line_number < matches_in(
            path,
            lines,
            query,
            fuzzy,
        )[k].line_number,
    decreases lines.len(),
{
    if lines.len() == 0 {
        reveal(Seq::filter);
    } else {
        matches_by_last_line(path, lines, query, fuzzy);
        let before = matches_in(path, lines.drop_last(), query, fuzzy);
        if k < before.len() {
            reported_in_line_order(path, lines.drop_last(), query, fuzzy, j, k);
        } else {
            reported_lines_match(path, lines.drop_last(), query, fuzzy, j);
        }
    }
}

/// A file that holds the query in one of its lines, case aside, has that
/// line reported by the exact mode, under its number.
pub proof fn exact_mode_reports_containing_line(
    path: Seq<char>,
    content: Seq<char>,
    query: Seq<char>,
    index: int,
)
    requires
        0 <= index < lines_of(content).len(),
        exact_hit(lines_of(content)[index], query),
    ensures
        content_scan(path, content, query, false).contains(
            record_of(path, lines_of(content)[index], index),
        ),
{
    matching_lines_are_reported(path, lines_of(content), query, false, index);
}

/// A file in which no line holds the query, case aside, and in no line the
/// characters of the query occur in order, has no match in either mode.
pub proof fn nothing_found_where_nothing_occurs(
    path: Seq<char>,
    content: Seq<char>,
    query: Seq<char>,
    fuzzy: bool,
)
    requires
        forall|i: int|
            0 <= i < lines_of(content).len() ==> !exact_hit(#[trigger] lines_of(content)[i], query)
                && !is_subsequence(lowercase(query), lowercase(lines_of(content)[i]), false),
    ensures
        content_scan(path, content, query, fuzzy) == Seq::<MatchView>::empty(),
{
    let lines = lines_of(content);
    let found = matches_in(path, lines, query, fuzzy);
    if found.len() > 0 {
        reported_lines_match(path, lines, query, fuzzy, 0);
        let line = lines[found[0].line_number - 1];
        if fuzzy && has_ascii_upper(lowercase(query)) {
            subsequence_ignoring_case(lowercase(query), lowercase(line));
        }
        assert(false);
    }
    assert(found =~= Seq::empty());
}

/// The fuzzy mode matches a line in which the characters of the query
/// occur in order once both are lower-cased, and matches no line in which
/// they do not, even with the case of ASCII letters left aside.
pub proof fn fuzzy_mode_finds_ordered_characters(line: Seq<char>, query: Seq<char>)
    ensures
        is_subsequence(lowercase(query), lowercase(line), true) ==> fuzzy_hit(line, query),
        fuzzy_hit(line, query) ==> is_subsequence(lowercase(query), lowercase(line), false),
{
    if is_subsequence(lowercase(query), lowercase(line), true) {
        subsequence_ignoring_case(lowercase(query), lowercase(line));
    }
}

/// What the exact mode matches, the fuzzy mode matches too.
pub proof fn fuzzy_hit_where_exact_hit(line: Seq<char>, query: Seq<char>)
    requires
        exact_hit(line, query),
    ensures
        fuzzy_hit(line, query),
{
    substring_is_subsequence(
        lowercase(query),
        lowercase(line),
        has_ascii_upper(lowercase(query)),
    );
}

/// Every match that the exact mode reports for a file is among those that
/// the fuzzy mode reports for it.
pub proof fn fuzzy_mode_reports_what_exact_mode_reports(
    path: Seq<char>,
    lines: Seq<Seq<char>>,
    query: Seq<char>,
    k: int,
)
    requires
        0 <= k < matches_in(path, lines, query, false).len(),
    ensures
        matches_in(path, lines, query, true).contains(matches_in(path, lines, query, false)[k]),
{
    reported_lines_match(path, lines, query, false, k);
    let found = matches_in(path, lines, query, false)[k];
    fuzzy_hit_where_exact_hit(found.line_text, query);
    matching_lines_are_reported(path, lines, query, true, found.line_number - 1);
}

/// The number of line feeds in `text`.
pub open spec fn line_feeds(text: Seq<char>) -> nat
    decreases text.len(),
{
    if text.len() == 0 {
        0
    } else {
        line_feeds(text.drop_last()) + if text.last() == '\n' {
            1nat
        } else {
            0nat
        }
    }
}

/// The offset in `text` at which line `index`, counted from 0, begins.
pub open spec fn line_start(text: Seq<char>, index: nat) -> int
    decreases index,
{
    if index == 0 {
        0
    } else {
        let before = line_start(text, (index - 1) as nat);
        if 0 <= before <= text.len() {
            before + line_end(text.skip(before)) + 1
        } else {
            before
        }
    }
}

/// Line feeds add up over the parts of a text.
pub proof fn line_feeds_of_parts(head: Seq<char>, tail: Seq<char>)
    ensures
        line_feeds(head + tail) == line_feeds(head) + line_feeds(tail),
    decreases tail.len(),
{
    if tail.len() == 0 {
        assert(head + tail =~= head);
    } else {
        assert((head + tail).drop_last() =~= head + tail.drop_last());
        line_feeds_of_parts(head, tail.drop_last());
    }
}

/// A text without a line feed counts none.
pub proof fn no_line_feed_counts_zero(text: Seq<char>)
    requires
        forall|j: int| 0 <= j < text.len() ==> text[j] != '\n',
    ensures
        line_feeds(text) == 0,
    decreases text.len(),
{
    if text.len() > 0 {
        no_line_feed_counts_zero(text.drop_last());
    }
}

/// The line with number `index + 1` is the physical line at that position:
/// it begins in the text right after `index` line feeds, runs up to the next
/// line feed or the end of the text, and loses only a carriage return that
/// stands directly before that line feed.
pub proof fn line_number_is_physical_position(text: Seq<char>, index: nat)
    requires
        index < lines_of(text).len(),
    ensures
        ({
            let start = line_start(text, index);
            let len = line_end(text.skip(start));
            &&& 0 <= start < text.len()
            &&& 0 <= len <= text.len() - start
            &&& line_feeds(text.take(start)) == index
            &&& index > 0 ==> text[start - 1] == '\n'
            &&& lines_of(text)[index as int] == if start + len < text.len() {
                without_cr(text.subrange(start, start + len))
            } else {
                text.subrange(start, start + len)
            }
            &&& lines_of(text.skip(start)) == lines_of(text).skip(index as int)
        }),
    decreases index,
{
    if index == 0 {
        assert(text.skip(0) =~= text);
        assert(text.take(0) =~= Seq::empty());
        line_end_bounds(text);
        let len = line_end(text);
        assert(text.take(len) =~= text.subrange(0, len));
        assert(text.subrange(0, text.len() as int) =~= text);
        assert(lines_of(text).skip(0) =~= lines_of(text));
    } else {
        let prev = (index - 1) as nat;
        line_number_is_physical_position(text, prev);
        let before = line_start(text, prev);
        let rest = text.skip(before);
        let step = line_end(rest);
        line_end_bounds(rest);
        assert(lines_of(rest) == lines_of(text).skip(prev as int));
        assert(lines_of(rest).len() >= 2);
        assert(step < rest.len());
        let start = before + step + 1;
        assert(rest.skip(step + 1) =~= text.skip(start));
        assert(lines_of(rest) == seq![without_cr(rest.take(step))] + lines_of(text.skip(start)));
        assert(lines_of(text.skip(start)) =~= lines_of(text).skip(index as int)) by {
            assert(lines_of(rest).skip(1) =~= lines_of(text.skip(start)));
            assert(lines_of(text).skip(prev as int).skip(1) =~= lines_of(text).skip(index as int));
        }
        let tail = text.skip(start);
        assert(lines_of(tail).len() > 0);
        assert(tail.len() > 0);
        line_end_bounds(tail);
        let len = line_end(tail);
        assert(tail.take(len) =~= text.subrange(start, start + len));
        assert(tail =~= text.subrange(start, text.len() as int));
        assert(lines_of(text)[index as int] == lines_of(tail)[0]);
        assert(text.take(start) =~= text.take(before) + rest.take(step + 1));
        line_feeds_of_parts(text.take(before), rest.take(step + 1));
        assert(rest.take(step + 1).drop_last() =~= rest.take(step));
        no_line_feed_counts_zero(rest.take(step));
        assert(rest.take(step + 1).last() == '\n');
    }
}

/// A line feed after the last line adds no line and changes no line
/// number. With it the text has the same lines as without, but that the
/// last line loses a carriage return at its end, which now goes with the
/// line feed.
pub proof fn final_line_feed_adds_no_line(text: Seq<char>)
    requires
        text.len() > 0,
        text.last() != '\n',
    ensures
        lines_of(text).len() > 0,
        lines_of(text.push('\n')) == lines_of(text).drop_last().push(
            without_cr(lines_of(text).last()),
        ),
        text.last() != '\r' ==> lines_of(text.push('\n')) == lines_of(text),
    decreases text.len(),
{
    let longer = text.push('\n');
    let end = line_end(text);
    line_end_bounds(text);
    assert forall|j: int| 0 <= j < end implies longer[j] != '\n' by {
        assert(longer[j] == text[j]);
    }
    line_end_is_first_line_feed(longer, end);
    assert(longer.take(end) =~= text.take(end));
    if end < text.len() {
        let rest = text.skip(end + 1);
        assert(rest.len() > 0);
        assert(rest.last() == text.last());
        assert(longer.skip(end + 1) =~= rest.push('\n'));
        final_line_feed_adds_no_line(rest);
        let first = seq![without_cr(text.take(end))];
        assert(lines_of(text) == first + lines_of(rest));
        assert((first + lines_of(rest)).drop_last() =~= first + lines_of(rest).drop_last());
        assert(lines_of(longer) =~= lines_of(text).drop_last().push(
            without_cr(lines_of(text).last()),
        ));
    } else {
        assert(text.take(end) =~= text);
        assert(longer.skip(end + 1) =~= Seq::<char>::empty());
        assert(lines_of(longer.skip(end + 1)) =~= Seq::<Seq<char>>::empty());
        assert(lines_of(text) =~= seq![text]);
        assert(lines_of(longer) =~= seq![without_cr(text)]);
        assert(lines_of(longer) =~= lines_of(text).drop_last().push(
            without_cr(lines_of(text).last()),
        ));
    }
    if text.last() != '\r' {
        final_line_keeps_its_end(text);
        assert(lines_of(text).drop_last().push(lines_of(text).last()) =~= lines_of(text));
    }
}

/// The last line of a text that does not end in a line feed ends as the
/// text ends.
pub proof fn final_line_keeps_its_end(text: Seq<char>)
    requires
        text.len() > 0,
        text.last() != '\n',
    ensures
        lines_of(text).len() > 0,
        lines_of(text).last().len() > 0,
        lines_of(text).last().last() == text.last(),
    decreases text.len(),
{
    let end = line_end(text);
    line_end_bounds(text);
    if end < text.len() {
        let rest = text.skip(end + 1);
        assert(rest.len() > 0);
        assert(rest.last() == text.last());
        final_line_keeps_its_end(rest);
        let first = seq![without_cr(text.take(end))];
        assert(lines_of(text) == first + lines_of(rest));
        assert((first + lines_of(rest)).last() == lines_of(rest).last());
    } else {
        assert(lines_of(text) =~= seq![text]);
    }
}

/// A search finds the same in a file with and without a line feed after its
/// last line, where that line does not end in a carriage return.
pub proof fn final_line_feed_changes_no_match(
    path: Seq<char>,
    content: Seq<char>,
    query: Seq<char>,
    fuzzy: bool,
)
    requires
        content.len() > 0,
        content.last() != '\n',
        content.last() != '\r',
    ensures
        content_scan(path, content.push('\n'), query, fuzzy) == content_scan(
            path,
            content,
            query,
            fuzzy,
        ),
{
    final_line_feed_adds_no_line(content);
}

/// The matches of two runs of entries, one after the other, are the matches
/// of the first followed by those of the second.
pub proof fn directory_matches_of_parts(
    first: Seq<EntryView>,
    second: Seq<EntryView>,
    query: Seq<char>,
    fuzzy: bool,
)
    ensures
        directory_matches(first + second, query, fuzzy) == directory_matches(first, query, fuzzy)
            + directory_matches(second, query, fuzzy),
    decreases second.len(),
{
    if second.len() == 0 {
        assert(first + second =~= first);
        assert(directory_matches(first, query, fuzzy) + Seq::<MatchView>::empty()
            =~= directory_matches(first, query, fuzzy));
    } else {
        assert((first + second).drop_last() =~= first + second.drop_last());
        directory_matches_of_parts(first, second.drop_last(), query, fuzzy);
        assert(directory_matches(first + second, query, fuzzy) =~= directory_matches(
            first,
            query,
            fuzzy,
        ) + directory_matches(second, query, fuzzy));
    }
}

/// An entry that is passed over, for whatever reason, leaves the search as
/// it is without it: what stands before it and after it is found all the
/// same.
pub proof fn skipped_entry_changes_nothing(
    before: Seq<EntryView>,
    entry: EntryView,
    after: Seq<EntryView>,
    query: Seq<char>,
    fuzzy: bool,
)
    requires
        entry_scan(entry, query, fuzzy) is Err,
    ensures
        directory_matches(before + seq![entry] + after, query, fuzzy) == directory_matches(
            before + after,
            query,
            fuzzy,
        ),
{
    directory_matches_of_parts(before + seq![entry], after, query, fuzzy);
    directory_matches_of_parts(before, seq![entry], query, fuzzy);
    directory_matches_of_parts(before, after, query, fuzzy);
    assert(seq![entry].drop_last() =~= Seq::<EntryView>::empty());
    assert(directory_matches(seq![entry].drop_last(), query, fuzzy) =~= Seq::<MatchView>::empty());
    assert(seq![entry].last() == entry);
    assert(directory_matches(seq![entry], query, fuzzy) =~= Seq::<MatchView>::empty());
    assert(directory_matches(before, query, fuzzy) + Seq::<MatchView>::empty()
        =~= directory_matches(before, query, fuzzy));
}

/// A file whose bytes are no UTF-8 text yields no match, and the search
/// goes on past it as if it were not there.
pub proof fn binary_file_is_passed_over(
    before: Seq<EntryView>,
    entry: EntryView,
    after: Seq<EntryView>,
    query: Seq<char>,
    fuzzy: bool,
)
    requires
        entry.content matches Some(bytes) && !valid_utf8(bytes),
    ensures
        file_scan(entry.path, entry.content->Some_0, query, fuzzy) == Err::<
            Seq<MatchView>,
            SkipReason,
        >(SkipReason::NotText),
        reported(entry_scan(entry, query, fuzzy)) == Seq::<MatchView>::empty(),
        directory_matches(before + seq![entry] + after, query, fuzzy) == directory_matches(
            before + after,
            query,
            fuzzy,
        ),
{
    skipped_entry_changes_nothing(before, entry, after, query, fuzzy);
}

/// Every match of a search stands in a plain file that the skip policy
/// admits: no match is reported from an excluded path.
pub proof fn matches_come_from_admitted_files(
    entries: Seq<EntryView>,
    query: Seq<char>,
    fuzzy: bool,
    k: int,
)
    requires
        0 <= k < directory_matches(entries, query, fuzzy).len(),
    ensures
        !should_skip(directory_matches(entries, query, fuzzy)[k].file_path),
        exists|i: int|
            0 <= i < entries.len() && (#[trigger] entries[i]).is_file && entries[i].path
                == directory_matches(entries, query, fuzzy)[k].file_path,
    decreases entries.len(),
{
    let earlier = directory_matches(entries.drop_last(), query, fuzzy);
    if k < earlier.len() {
        matches_come_from_admitted_files(entries.drop_last(), query, fuzzy, k);
        let i = choose|i: int|
            0 <= i < entries.drop_last().len() && (#[trigger] entries.drop_last()[i]).is_file
                && entries.drop_last()[i].path == earlier[k].file_path;
        assert(entries[i] == entries.drop_last()[i]);
    } else {
        let last = entries.last();
        let found = reported(entry_scan(last, query, fuzzy));
        let bytes = last.content->Some_0;
        let lines = lines_of(vstd::utf8::decode_utf8(bytes));
        assert(found == matches_in(last.path, lines, query, fuzzy));
        reported_lines_match(last.path, lines, query, fuzzy, k - earlier.len());
        assert(entries[entries.len() - 1] == last);
    }
}

} // verus!
