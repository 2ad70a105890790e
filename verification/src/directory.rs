//! A whole search: the entries of a traversal, each with what reading it
//! gave, and the matches that they yield together.
//!
//! Every entry is judged by itself. One that is no plain file, that the skip
//! policy excludes, that could not be read or that is no text yields
//! nothing, and the entries after it are searched as if it were not there.

use vstd::prelude::*;
use crate::matcher::{file_scan, search_in_file};
use crate::report::{all_well_formed, outcome_view, views, MatchResult, MatchView, SkipReason};
use crate::walker::{should_skip, should_skip_file};

verus! {

/// An entry that the traversal came upon: its path, whether it is a plain
/// file, and the bytes that reading it gave, if it could be read.
#[derive(Debug, Clone, PartialEq, Eq)]
pub struct WalkedEntry {
    pub path: String,
    pub is_file: bool,
    pub content: Option<Vec<u8>>,
}

/// The mathematical content of a `WalkedEntry`.
pub struct EntryView {
    pub path: Seq<char>,
    pub is_file: bool,
    pub content: Option<Seq<u8>>,
}

impl View for WalkedEntry {
    type V = EntryView;

    open spec fn view(&self) -> EntryView {
        EntryView {
            path: self.path@,
            is_file: self.is_file,
            content: match self.content {
                Some(bytes) => Some(bytes@),
                None => None,
            },
        }
    }
}

/// The contents of a vector of entries.
pub open spec fn entry_views(entries: Seq<WalkedEntry>) -> Seq<EntryView> {
    entries.map_values(|e: WalkedEntry| e@)
}

/// What one entry yields: the matches of its text, or the first reason, in
/// the order of the checks, for which it is passed over.
pub open spec fn entry_scan(entry: EntryView, query: Seq<char>, fuzzy: bool) -> Result<
    Seq<MatchView>,
    SkipReason,
> {
    if !entry.is_file {
        Err(SkipReason::NotAFile)
    } else if should_skip(entry.path) {
        Err(SkipReason::ExcludedPath)
    } else {
        match entry.content {
            None => Err(SkipReason::Unreadable),
            Some(bytes) => file_scan(entry.path, bytes, query, fuzzy),
        }
    }
}

/// The matches that an outcome adds to the report.
pub open spec fn reported(outcome: Result<Seq<MatchView>, SkipReason>) -> Seq<MatchView> {
    match outcome {
        Ok(found) => found,
        Err(_) => Seq::empty(),
    }
}

/// The matches of all entries: those of the first entry, then those of the
/// second, and so on, each file's matches in line order.
pub open spec fn directory_matches(entries: Seq<EntryView>, query: Seq<char>, fuzzy: bool) -> Seq<
    MatchView,
>
    decreases entries.len(),
{
    if entries.len() == 0 {
        Seq::empty()
    } else {
        directory_matches(entries.drop_last(), query, fuzzy) + reported(
            entry_scan(entries.last(), query, fuzzy),
        )
    }
}

/// Searches one entry of the traversal.
pub fn search_entry(entry: &WalkedEntry, query: &str, fuzzy_mode: bool) -> (found: Result<
    Vec<MatchResult>,
    SkipReason,
>)
    ensures
        outcome_view(found) == entry_scan(entry@, query@, fuzzy_mode),
        found matches Ok(results) ==> all_well_formed(results@),
{
    if !entry.is_file {
        return Err(SkipReason::NotAFile);
    }
    if should_skip_file(entry.path.as_str()) {
        return Err(SkipReason::ExcludedPath);
    }
    match &entry.content {
        None => Err(SkipReason::Unreadable),
        Some(bytes) => search_in_file(entry.path.as_str(), bytes.as_slice(), query, fuzzy_mode),
    }
}

/// Searches the entries of a traversal in the order in which it met them
/// and returns all matches, file by file.
pub fn search_in_directory(entries: &Vec<WalkedEntry>, query: &str, fuzzy_mode: bool) -> (found: Vec<
    MatchResult,
>)
    ensures
        views(found@) == directory_matches(entry_views(entries@), query@, fuzzy_mode),
        all_well_formed(found@),
{
    let mut found: Vec<MatchResult> = Vec::new();
    let ghost all = entry_views(entries@);
    let mut i: usize = 0;
    assert(views(found@) =~= Seq::empty());
    assert(all.take(0) =~= Seq::empty());
    while i < entries.len()
        invariant
            i <= entries.len(),
            all == entry_views(entries@),
            views(found@) == directory_matches(all.take(i as int), query@, fuzzy_mode),
            all_well_formed(found@),
        decreases entries.len() - i,
    {
        let outcome = search_entry(&entries[i], query, fuzzy_mode);
        proof {
            assert(all.take(i + 1).drop_last() =~= all.take(i as int));
            assert(all.take(i + 1).last() == entries@[i as int]@);
        }
        match outcome {
            Ok(mut matches) => {
                assert(views(found@ + matches@) =~= views(found@) + views(matches@));
                found.append(&mut matches);
            },
            Err(_) => {
                assert(views(found@) + Seq::<MatchView>::empty() =~= views(found@));
            },
        }
        i += 1;
    }
    assert(all.take(i as int) =~= all);
    found
}

} // verus!
