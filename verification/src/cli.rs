//! The command line: two ways of writing a search request, and the texts
//! shown when the arguments make none.
//!
//! Nothing here reads the environment or ends the process. Parsing takes the
//! arguments as a vector, the program's name first, and returns the request
//! or the reason why there is none.

use vstd::prelude::*;
use vstd::string::StringExecFns;
use crate::text::{same_text, texts};

verus! {

/// How lines are matched.
#[derive(Debug, Clone, Copy, PartialEq, Eq)]
pub enum SearchMode {
    /// The query must occur in the line as it stands, but for case.
    Exact,
    /// The characters of the query must occur in the line in order.
    Fuzzy,
}

impl SearchMode {
    /// Whether this is the fuzzy mode.
    pub fn is_fuzzy(&self) -> (fuzzy: bool)
        ensures
            fuzzy == (*self == SearchMode::Fuzzy),
    {
        match self {
            SearchMode::Exact => false,
            SearchMode::Fuzzy => true,
        }
    }
}

/// A search to run: where to look, what to look for, and how.
#[derive(Debug, Clone, PartialEq, Eq)]
pub struct SearchRequest {
    pub root: String,
    pub query: String,
    pub mode: SearchMode,
}

/// The mathematical content of a `SearchRequest`.
pub struct RequestView {
    pub root: Seq<char>,
    pub query: Seq<char>,
    pub mode: SearchMode,
}

impl View for SearchRequest {
    type V = RequestView;

    open spec fn view(&self) -> RequestView {
        RequestView { root: self.root@, query: self.query@, mode: self.mode }
    }
}

impl SearchRequest {
    /// A request asks for something: its query is not empty.
    pub open spec fn well_formed(&self) -> bool {
        self.query@.len() > 0
    }
}

/// Why the arguments make no request.
#[derive(Debug, Clone, Copy, PartialEq, Eq)]
pub enum UsageError {
    /// No query was given, or too little to tell path and query.
    MissingArguments,
    /// The query is the empty text.
    EmptyQuery,
    /// The option that names the directory is the last argument.
    MissingDirectory,
    /// The argument at this position is neither a known option nor the one
    /// query.
    UnexpectedArgument { position: usize },
}

/// The mode that a flag selects.
pub open spec fn mode_of(fuzzy: bool) -> SearchMode {
    if fuzzy {
        SearchMode::Fuzzy
    } else {
        SearchMode::Exact
    }
}

/// The request written as `<path> <query> [--fuzzy]` after the program's
/// name.
pub open spec fn positional_request(args: Seq<Seq<char>>) -> Result<RequestView, UsageError> {
    if args.len() < 3 {
        Err(UsageError::MissingArguments)
    } else if args[2].len() == 0 {
        Err(UsageError::EmptyQuery)
    } else if args.len() >= 4 && args[3] != "--fuzzy"@ {
        Err(UsageError::UnexpectedArgument { position: 3 })
    } else if args.len() > 4 {
        Err(UsageError::UnexpectedArgument { position: 4 })
    } else {
        Ok(RequestView { root: args[1], query: args[2], mode: mode_of(args.len() == 4) })
    }
}

/// What has been read of an option-style command line.
pub struct Pending {
    pub root: Seq<char>,
    pub query: Option<Seq<char>>,
    pub fuzzy: bool,
}

/// The request that is complete when the arguments end.
pub open spec fn finished(pending: Pending) -> Result<RequestView, UsageError> {
    match pending.query {
        None => Err(UsageError::MissingArguments),
        Some(query) => if query.len() == 0 {
            Err(UsageError::EmptyQuery)
        } else {
            Ok(RequestView { root: pending.root, query, mode: mode_of(pending.fuzzy) })
        },
    }
}

/// `arg` is the option that names the directory.
pub open spec fn is_dir_option(arg: Seq<char>) -> bool {
    arg == "--dir"@ || arg == "-d"@
}

/// `arg` is the option that selects the fuzzy mode.
pub open spec fn is_fuzzy_option(arg: Seq<char>) -> bool {
    arg == "--fuzzy"@ || arg == "-f"@
}

/// Reads the arguments from position `at` on, from left to right. The
/// directory option takes the argument after it, and the last one given
/// counts. The first argument that is no option is the query; a second one
/// is an error.
pub open spec fn options_from(args: Seq<Seq<char>>, at: int, pending: Pending) -> Result<
    RequestView,
    UsageError,
>
    decreases args.len() - at,
{
    if at < 0 || at >= args.len() {
        finished(pending)
    } else if is_dir_option(args[at]) {
        if at + 1 < args.len() {
            options_from(args, at + 2, Pending { root: args[at + 1], ..pending })
        } else {
            Err(UsageError::MissingDirectory)
        }
    } else if is_fuzzy_option(args[at]) {
        options_from(args, at + 1, Pending { fuzzy: true, ..pending })
    } else if pending.query is None {
        options_from(args, at + 1, Pending { query: Some(args[at]), ..pending })
    } else {
        Err(UsageError::UnexpectedArgument { position: at as usize })
    }
}

/// The request written as `<query> [--dir <path>] [--fuzzy|-f]` after the
/// program's name, in any order. Without the directory option the search
/// starts in the current directory.
pub open spec fn option_request(args: Seq<Seq<char>>) -> Result<RequestView, UsageError> {
    options_from(args, 1, Pending { root: "."@, query: None, fuzzy: false })
}

/// The content of a parsing result.
pub open spec fn request_view(parsed: Result<SearchRequest, UsageError>) -> Result<
    RequestView,
    UsageError,
> {
    match parsed {
        Ok(request) => Ok(request@),
        Err(error) => Err(error),
    }
}

/// Reads a command line of the form `<path> <query> [--fuzzy]`; `args[0]`
/// is the program's name.
pub fn parse_args(args: &Vec<String>) -> (parsed: Result<SearchRequest, UsageError>)
    ensures
        request_view(parsed) == positional_request(texts(args@)),
        parsed matches Ok(request) ==> request.well_formed(),
{
    if args.len() < 3 {
        return Err(UsageError::MissingArguments);
    }
    assert(texts(args@)[1] == args@[1]@);
    assert(texts(args@)[2] == args@[2]@);
    if args[2].as_str().is_empty() {
        return Err(UsageError::EmptyQuery);
    }
    if args.len() >= 4 {
        assert(texts(args@)[3] == args@[3]@);
        if !same_text(args[3].as_str(), "--fuzzy") {
            return Err(UsageError::UnexpectedArgument { position: 3 });
        }
    }
    if args.len() > 4 {
        return Err(UsageError::UnexpectedArgument { position: 4 });
    }
    let mode = if args.len() == 4 {
        SearchMode::Fuzzy
    } else {
        SearchMode::Exact
    };
    Ok(SearchRequest { root: args[1].clone(), query: args[2].clone(), mode })
}

/// Reads a command line of the form `<query> [--dir <path>] [--fuzzy|-f]`;
/// `args[0]` is the program's name.
pub fn parse_options(args: &Vec<String>) -> (parsed: Result<SearchRequest, UsageError>)
    ensures
        request_view(parsed) == option_request(texts(args@)),
        parsed matches Ok(request) ==> request.well_formed(),
{
    let mut root: String = ".".to_owned();
    let mut query: Option<String> = None;
    let mut fuzzy = false;
    let mut at: usize = 1;
    let ghost all = texts(args@);
    while at < args.len()
        invariant
            1 <= at,
            all == texts(args@),
            option_request(all) == options_from(
                all,
                at as int,
                Pending {
                    root: root@,
                    query: match query {
                        Some(text) => Some(text@),
                        None => None,
                    },
                    fuzzy,
                },
            ),
        decreases args.len() - at,
    {
        let arg = args[at].as_str();
        assert(all[at as int] == arg@);
        if same_text(arg, "--dir") || same_text(arg, "-d") {
            if at + 1 < args.len() {
                assert(all[at + 1] == args@[at + 1]@);
                root = args[at + 1].clone();
                at += 2;
            } else {
                return Err(UsageError::MissingDirectory);
            }
        } else if same_text(arg, "--fuzzy") || same_text(arg, "-f") {
            fuzzy = true;
            at += 1;
        } else if query.is_none() {
            query = Some(args[at].clone());
            at += 1;
        } else {
            return Err(UsageError::UnexpectedArgument { position: at });
        }
    }
    match query {
        None => Err(UsageError::MissingArguments),
        Some(text) => {
            if text.as_str().is_empty() {
                Err(UsageError::EmptyQuery)
            } else {
                let mode = if fuzzy {
                    SearchMode::Fuzzy
                } else {
                    SearchMode::Exact
                };
                Ok(SearchRequest { root, query: text, mode })
            }
        },
    }
}

/// The name under which the program was called: the first argument, or
/// the program's usual name where there is none.
pub open spec fn program_name(args: Seq<Seq<char>>) -> Seq<char> {
    if args.len() > 0 {
        args[0]
    } else {
        "rust-search"@
    }
}

/// The line that shows how the program is called.
pub open spec fn usage_of(args: Seq<Seq<char>>) -> Seq<char> {
    "Usage: "@ + program_name(args) + " <path> <query> [--fuzzy]"@
}

/// Writes the usage line for the command line `args`.
pub fn usage_line(args: &Vec<String>) -> (line: String)
    ensures
        line@ == usage_of(texts(args@)),
{
    let mut line = "Usage: ".to_owned();
    if args.len() > 0 {
        assert(texts(args@)[0] == args@[0]@);
        line.append(args[0].as_str());
    } else {
        line.append("rust-search");
    }
    line.append(" <path> <query> [--fuzzy]");
    line
}

} // verus!
