//! The line matcher: which lines of a text match a query, in either mode.
//!
//! Both modes ignore case by lower-casing the line and the query first. The
//! exact mode then asks for the query as a contiguous part of the line, the
//! fuzzy mode for its characters in order, with any gaps.

use vstd::prelude::*;
use vstd::utf8::{decode_utf8, valid_utf8};
use crate::fuzzy::{fuzzy_found, skim_accepts};
use crate::lines::{lines_of, split_lines};
use crate::report::{all_well_formed, outcome_view, views, MatchResult, MatchView, SkipReason};
use crate::text::{chars_of, contains_chars, is_substring, lowercase, lowercase_of, texts};

verus! {

/// A line together with its lower-cased form.
#[derive(Debug, Clone, PartialEq, Eq)]
pub struct FoldedLine {
    pub text: String,
    pub lowered: String,
}

/// The mathematical content of a `FoldedLine`.
pub struct FoldedView {
    pub text: Seq<char>,
    pub lowered: Seq<char>,
}

impl View for FoldedLine {
    type V = FoldedView;

    open spec fn view(&self) -> FoldedView {
        FoldedView { text: self.text@, lowered: self.lowered@ }
    }
}

/// The contents of a vector of folded lines.
pub open spec fn folded_views(lines: Seq<FoldedLine>) -> Seq<FoldedView> {
    lines.map_values(|l: FoldedLine| l@)
}

/// A lower-cased line matches a lower-cased query: in the exact mode it
/// holds the query as a contiguous part, in the fuzzy mode the scorer finds
/// the query in it.
pub open spec fn lowered_hit(lowered_line: Seq<char>, lowered_query: Seq<char>, fuzzy: bool) -> bool {
    if fuzzy {
        skim_accepts(lowered_line, lowered_query)
    } else {
        is_substring(lowered_query, lowered_line)
    }
}

/// The exact mode matches `line`: lower-cased, it holds the lower-cased
/// query as a contiguous part.
pub open spec fn exact_hit(line: Seq<char>, query: Seq<char>) -> bool {
    is_substring(lowercase(query), lowercase(line))
}

/// The fuzzy mode matches `line`: the scorer finds the lower-cased query in
/// the lower-cased line.
pub open spec fn fuzzy_hit(line: Seq<char>, query: Seq<char>) -> bool {
    skim_accepts(lowercase(line), lowercase(query))
}

/// The active mode matches `line`: lower-cased, the line matches the
/// lower-cased query.
pub open spec fn line_hit(line: Seq<char>, query: Seq<char>, fuzzy: bool) -> bool {
    lowered_hit(lowercase(line), lowercase(query), fuzzy)
}

/// The record that reports line `index`, counted from 0, of a file.
pub open spec fn record_of(path: Seq<char>, line: Seq<char>, index: int) -> MatchView {
    MatchView { file_path: path, line_number: (index + 1) as nat, line_text: line }
}

/// The lines of a file, each with the file's path and its number.
pub open spec fn numbered(path: Seq<char>, lines: Seq<Seq<char>>) -> Seq<MatchView> {
    Seq::new(lines.len(), |i: int| record_of(path, lines[i], i))
}

/// The matching lines among `lines`, in document order.
pub open spec fn matches_in(
    path: Seq<char>,
    lines: Seq<Seq<char>>,
    query: Seq<char>,
    fuzzy: bool,
) -> Seq<MatchView> {
    numbered(path, lines).filter(|m: MatchView| line_hit(m.line_text, query, fuzzy))
}

/// The records of those folded lines whose lower-cased form matches the
/// lower-cased query, in document order. Each record carries the line as it
/// was before lower-casing.
pub open spec fn selected(
    path: Seq<char>,
    lines: Seq<FoldedView>,
    lowered_query: Seq<char>,
    fuzzy: bool,
) -> Seq<MatchView>
    decreases lines.len(),
{
    if lines.len() == 0 {
        Seq::empty()
    } else {
        selected(path, lines.drop_last(), lowered_query, fuzzy) + if lowered_hit(
            lines.last().lowered,
            lowered_query,
            fuzzy,
        ) {
            seq![record_of(path, lines.last().text, lines.len() - 1)]
        } else {
            Seq::empty()
        }
    }
}

/// The lines `lines`, each with its lower-cased form.
pub open spec fn folded(lines: Seq<Seq<char>>) -> Seq<FoldedView> {
    lines.map_values(|line: Seq<char>| FoldedView { text: line, lowered: lowercase(line) })
}

/// What a scan of the text `content` yields: its matching lines.
pub open spec fn content_scan(
    path: Seq<char>,
    content: Seq<char>,
    query: Seq<char>,
    fuzzy: bool,
) -> Seq<MatchView> {
    matches_in(path, lines_of(content), query, fuzzy)
}

/// What a scan of the file contents `bytes` yields: the matching lines of
/// the text that they encode, or the finding that they encode none.
pub open spec fn file_scan(
    path: Seq<char>,
    bytes: Seq<u8>,
    query: Seq<char>,
    fuzzy: bool,
) -> Result<Seq<MatchView>, SkipReason> {
    if valid_utf8(bytes) {
        Ok(content_scan(path, decode_utf8(bytes), query, fuzzy))
    } else {
        Err(SkipReason::NotText)
    }
}

/// Selecting among lines that are folded with `lowercase`, by the query
/// folded likewise, gives the matching lines.
pub proof fn selected_of_folded_lines(
    path: Seq<char>,
    lines: Seq<Seq<char>>,
    query: Seq<char>,
    fuzzy: bool,
)
    ensures
        selected(path, folded(lines), lowercase(query), fuzzy) == matches_in(
            path,
            lines,
            query,
            fuzzy,
        ),
    decreases lines.len(),
{
    reveal(Seq::filter);
    if lines.len() > 0 {
        assert(folded(lines).drop_last() =~= folded(lines.drop_last()));
        assert(numbered(path, lines).drop_last() =~= numbered(path, lines.drop_last()));
        selected_of_folded_lines(path, lines.drop_last(), query, fuzzy);
    }
}

/// Judges a lower-cased line against a lower-cased query, given both as a
/// string and as its characters.
fn lowered_query_hits(
    lowered_line: &str,
    lowered_query: &str,
    lowered_query_chars: &Vec<char>,
    fuzzy: bool,
) -> (hit: bool)
    requires
        lowered_query_chars@ == lowered_query@,
    ensures
        hit == lowered_hit(lowered_line@, lowered_query@, fuzzy),
{
    if fuzzy {
        fuzzy_found(lowered_line, lowered_query)
    } else {
        let line_chars = chars_of(lowered_line);
        contains_chars(line_chars.as_slice(), lowered_query_chars.as_slice())
    }
}

/// Decides whether a line matches a query, both lower-cased already.
pub fn lowered_line_matches(lowered_line: &str, lowered_query: &str, use_fuzzy: bool) -> (hit: bool)
    ensures
        hit == lowered_hit(lowered_line@, lowered_query@, use_fuzzy),
{
    let lowered_query_chars = chars_of(lowered_query);
    lowered_query_hits(lowered_line, lowered_query, &lowered_query_chars, use_fuzzy)
}

/// Decides whether `line` matches `query` in the given mode.
pub fn line_matches(line: &str, query: &str, use_fuzzy: bool) -> (hit: bool)
    ensures
        hit == line_hit(line@, query@, use_fuzzy),
{
    let lowered_line = lowercase_of(line);
    let lowered_query = lowercase_of(query);
    lowered_line_matches(lowered_line.as_str(), lowered_query.as_str(), use_fuzzy)
}

/// Lower-cases each of `lines` and keeps it beside the line.
pub fn fold_lines(lines: Vec<String>) -> (out: Vec<FoldedLine>)
    ensures
        folded_views(out@) == folded(texts(lines@)),
{
    let mut out: Vec<FoldedLine> = Vec::new();
    let ghost all = folded(texts(lines@));
    let ghost given = lines@;
    assert(folded_views(out@) =~= all.take(0));
    for line in it: lines
        invariant
            it.seq() == given,
            all == folded(texts(given)),
            folded_views(out@) == all.take(it.index() as int),
    {
        let lowered = lowercase_of(line.as_str());
        let pair = FoldedLine { text: line, lowered };
        proof {
            let i = it.index() as int;
            assert(texts(given)[i] == given[i]@);
            assert(pair@ == all[i]);
            assert(folded_views(out@.push(pair)) =~= folded_views(out@).push(pair@));
            assert(all.take(i + 1) =~= all.take(i).push(all[i]));
        }
        out.push(pair);
    }
    assert(all.take(all.len() as int) =~= all);
    out
}

/// Goes through folded lines and reports those whose lower-cased form
/// matches the lower-cased query, each under its position counted from 1
/// and with the line as it was.
pub fn search_in_lines(path: &str, lines: &Vec<FoldedLine>, lowered_query: &str, fuzzy_mode: bool) -> (found:
    Vec<MatchResult>)
    ensures
        views(found@) == selected(path@, folded_views(lines@), lowered_query@, fuzzy_mode),
        all_well_formed(found@),
{
    let lowered_query_chars = chars_of(lowered_query);
    let mut found: Vec<MatchResult> = Vec::new();
    let ghost all = folded_views(lines@);
    let mut i: usize = 0;
    proof {
        assert(all.take(0) =~= Seq::empty());
        assert(views(found@) =~= Seq::empty());
    }
    while i < lines.len()
        invariant
            i <= lines.len(),
            lowered_query_chars@ == lowered_query@,
            all == folded_views(lines@),
            views(found@) == selected(path@, all.take(i as int), lowered_query@, fuzzy_mode),
            all_well_formed(found@),
        decreases lines.len() - i,
    {
        let line = &lines[i];
        let is_hit = lowered_query_hits(
            line.lowered.as_str(),
            lowered_query,
            &lowered_query_chars,
            fuzzy_mode,
        );
        proof {
            assert(all.take(i + 1).drop_last() =~= all.take(i as int));
            assert(all.take(i + 1).last() == line@);
        }
        if is_hit {
            let result = MatchResult {
                file_path: path.to_owned(),
                line_number: i + 1,
                line_text: line.text.clone(),
            };
            assert(result@ == record_of(path@, line@.text, i as int));
            assert(views(found@.push(result)) =~= views(found@).push(result@));
            found.push(result);
        } else {
            assert(views(found@) + Seq::<MatchView>::empty() =~= views(found@));
        }
        i += 1;
    }
    assert(all.take(i as int) =~= all);
    found
}

/// Scans the text `content` of the file at `path` line by line and returns
/// its matching lines in document order, numbered from 1.
pub fn search_in_content(path: &str, content: &str, query: &str, fuzzy_mode: bool) -> (found: Vec<
    MatchResult,
>)
    ensures
        views(found@) == content_scan(path@, content@, query@, fuzzy_mode),
        all_well_formed(found@),
{
    let lines = fold_lines(split_lines(content));
    let lowered_query = lowercase_of(query);
    proof {
        selected_of_folded_lines(path@, lines_of(content@), query@, fuzzy_mode);
    }
    search_in_lines(path, &lines, lowered_query.as_str(), fuzzy_mode)
}

/// The error of `core::str::from_utf8`, which says where the bytes stop
/// being UTF-8.
#[verifier::external_type_specification]
#[verifier::external_body]
pub struct ExUtf8Error(core::str::Utf8Error);

/// `core::str::from_utf8` accepts exactly the byte strings that are valid
/// UTF-8, and the text it returns is what they encode.
pub assume_specification[ core::str::from_utf8 ](v: &[u8]) -> (decoded: Result<
    &str,
    core::str::Utf8Error,
>)
    ensures
        decoded is Ok <==> valid_utf8(v@),
        decoded matches Ok(text) ==> text@ == decode_utf8(v@),
;

/// Decodes the contents `bytes` of the file at `filepath` as UTF-8 text and
/// scans that text. A file that is no text yields no match at all.
pub fn search_in_file(filepath: &str, bytes: &[u8], query: &str, use_fuzzy: bool) -> (found: Result<
    Vec<MatchResult>,
    SkipReason,
>)
    ensures
        outcome_view(found) == file_scan(filepath@, bytes@, query@, use_fuzzy),
        found matches Ok(results) ==> all_well_formed(results@),
{
    match core::str::from_utf8(bytes) {
        Ok(content) => Ok(search_in_content(filepath, content, query, use_fuzzy)),
        Err(_) => Err(SkipReason::NotText),
    }
}

} // verus!
