//! What a search reports: one record for each matching line.

use vstd::prelude::*;
use vstd::string::StringExecFns;
use crate::text::string_of;

verus! {

/// One matching line: the file it stands in, its position in that file,
/// counted from 1, and its text without the line terminator.
#[derive(Debug, Clone, PartialEq, Eq)]
pub struct MatchResult {
    pub file_path: String,
    pub line_number: usize,
    pub line_text: String,
}

/// The mathematical content of a `MatchResult`.
pub struct MatchView {
    pub file_path: Seq<char>,
    pub line_number: nat,
    pub line_text: Seq<char>,
}

impl View for MatchResult {
    type V = MatchView;

    open spec fn view(&self) -> MatchView {
        MatchView {
            file_path: self.file_path@,
            line_number: self.line_number as nat,
            line_text: self.line_text@,
        }
    }
}

impl MatchResult {
    /// Lines are counted from 1: no result has the line number 0.
    pub open spec fn well_formed(&self) -> bool {
        self.line_number >= 1
    }
}

/// Every result in `results` is well formed.
pub open spec fn all_well_formed(results: Seq<MatchResult>) -> bool {
    forall|k: int| 0 <= k < results.len() ==> (#[trigger] results[k]).well_formed()
}

/// The contents of a vector of results.
pub open spec fn views(results: Seq<MatchResult>) -> Seq<MatchView> {
    results.map_values(|m: MatchResult| m@)
}

/// Why a file contributes nothing to a search.
#[derive(Debug, Clone, Copy, PartialEq, Eq)]
pub enum SkipReason {
    /// The entry is a directory, a socket, a device: no plain file.
    NotAFile,
    /// The skip policy excludes the path.
    ExcludedPath,
    /// The file could not be opened or read.
    Unreadable,
    /// The file's bytes are no UTF-8 text.
    NotText,
}

/// What a search finds in one file: its matches, or the reason why the file
/// was passed over.
pub open spec fn outcome_view(outcome: Result<Vec<MatchResult>, SkipReason>) -> Result<
    Seq<MatchView>,
    SkipReason,
> {
    match outcome {
        Ok(results) => Ok(views(results@)),
        Err(reason) => Err(reason),
    }
}

/// The character that writes the digit `d`.
pub open spec fn digit_char(d: nat) -> char {
    if d == 0 {
        '0'
    } else if d == 1 {
        '1'
    } else if d == 2 {
        '2'
    } else if d == 3 {
        '3'
    } else if d == 4 {
        '4'
    } else if d == 5 {
        '5'
    } else if d == 6 {
        '6'
    } else if d == 7 {
        '7'
    } else if d == 8 {
        '8'
    } else {
        '9'
    }
}

/// `n` written in decimal digits, without leading zeros.
pub open spec fn decimal(n: nat) -> Seq<char>
    decreases n,
{
    if n < 10 {
        seq![digit_char(n)]
    } else {
        decimal(n / 10).push(digit_char(n % 10))
    }
}

/// The report line of a match: path, line number and line text, with a
/// colon after the first and after the second.
pub open spec fn rendered(found: MatchView) -> Seq<char> {
    found.file_path + ":"@ + decimal(found.line_number) + ":"@ + found.line_text
}

/// The character that writes the digit `d`.
fn digit_of(d: usize) -> (c: char)
    requires
        d < 10,
    ensures
        c == digit_char(d as nat),
{
    if d == 0 {
        '0'
    } else if d == 1 {
        '1'
    } else if d == 2 {
        '2'
    } else if d == 3 {
        '3'
    } else if d == 4 {
        '4'
    } else if d == 5 {
        '5'
    } else if d == 6 {
        '6'
    } else if d == 7 {
        '7'
    } else if d == 8 {
        '8'
    } else {
        '9'
    }
}

/// Appends the decimal digits of `n` to `out`.
fn push_decimal(n: usize, out: &mut Vec<char>)
    ensures
        final(out)@ == old(out)@ + decimal(n as nat),
    decreases n,
{
    if n >= 10 {
        push_decimal(n / 10, out);
    }
    out.push(digit_of(n % 10));
    assert(final(out)@ =~= old(out)@ + decimal(n as nat));
}

/// Writes `n` in decimal digits.
pub fn decimal_string(n: usize) -> (digits: String)
    ensures
        digits@ == decimal(n as nat),
{
    let mut chars: Vec<char> = Vec::new();
    push_decimal(n, &mut chars);
    assert(chars@ =~= decimal(n as nat));
    string_of(chars.as_slice())
}

/// Renders a match as the line that reports it.
pub fn format_match(found: &MatchResult) -> (line: String)
    ensures
        line@ == rendered(found@),
{
    let number = decimal_string(found.line_number);
    let mut line = found.file_path.clone();
    line.append(":");
    line.append(number.as_str());
    line.append(":");
    line.append(found.line_text.as_str());
    line
}

} // verus!
