use rust_search::{parse_args, parse_options, usage_line, SearchMode, SearchRequest, UsageError};

fn args(words: &[&str]) -> Vec<String> {
    words.iter().map(|w| w.to_string()).collect()
}

fn request(root: &str, query: &str, mode: SearchMode) -> SearchRequest {
    SearchRequest { root: root.to_string(), query: query.to_string(), mode }
}

#[test]
fn test_with_arguments() {
    let path = "test_path";
    let query = "test_query";
    let result = parse_args(&args(&["rust-search", path, query]));
    assert!(result.is_ok());
    assert_eq!(result, Ok(request("test_path", "test_query", SearchMode::Exact)));
}

#[test]
fn test_without_arguments() {
    let command_line = args(&["rust-search"]);
    let result = parse_args(&command_line);
    assert!(!result.is_ok());
    let stderr = usage_line(&command_line);
    assert!(stderr.contains("Usage: rust-search <path> <query> [--fuzzy]"));
}

#[test]
fn usage_line_names_the_program() {
    assert_eq!(usage_line(&args(&["./search"])), "Usage: ./search <path> <query> [--fuzzy]");
    assert_eq!(usage_line(&args(&[])), "Usage: rust-search <path> <query> [--fuzzy]");
    assert_eq!(usage_line(&args(&["", "x"])), "Usage:  <path> <query> [--fuzzy]");
}

#[test]
fn positional_form_rejects_what_it_does_not_know() {
    assert_eq!(
        parse_args(&args(&["rust-search", "dir", "query", "--other"])),
        Err(UsageError::UnexpectedArgument { position: 3 })
    );
    assert_eq!(
        parse_args(&args(&["rust-search", "dir", "query", "-f"])),
        Err(UsageError::UnexpectedArgument { position: 3 })
    );
    assert_eq!(
        parse_args(&args(&["rust-search", "dir", "query", "--fuzzy", "more"])),
        Err(UsageError::UnexpectedArgument { position: 4 })
    );
    assert_eq!(
        parse_args(&args(&["rust-search", "dir", "", "--fuzzy"])),
        Err(UsageError::EmptyQuery)
    );
    assert_eq!(
        parse_args(&args(&["rust-search", "dir", "", "--other"])),
        Err(UsageError::EmptyQuery)
    );
}

#[test]
fn positional_form_takes_any_path_and_query() {
    assert_eq!(
        parse_args(&args(&["p", "", "--fuzzy"])),
        Ok(request("", "--fuzzy", SearchMode::Exact))
    );
    assert_eq!(
        parse_args(&args(&["p", "--fuzzy", "q", "--fuzzy"])),
        Ok(request("--fuzzy", "q", SearchMode::Fuzzy))
    );
}

#[test]
fn option_form_defaults() {
    assert_eq!(
        parse_options(&args(&["rust-search", "needle"])),
        Ok(request(".", "needle", SearchMode::Exact))
    );
}

#[test]
fn option_form_reads_options_in_any_order() {
    let expected = Ok(request("src", "needle", SearchMode::Fuzzy));
    assert_eq!(parse_options(&args(&["p", "needle", "--dir", "src", "--fuzzy"])), expected);
    assert_eq!(parse_options(&args(&["p", "-f", "-d", "src", "needle"])), expected);
    assert_eq!(parse_options(&args(&["p", "--dir", "src", "needle", "-f"])), expected);
    assert_eq!(parse_options(&args(&["p", "-f", "needle", "-f", "-d", "src"])), expected);
}

#[test]
fn option_form_last_directory_counts() {
    assert_eq!(
        parse_options(&args(&["p", "-d", "one", "needle", "--dir", "two"])),
        Ok(request("two", "needle", SearchMode::Exact))
    );
}

#[test]
fn option_form_directory_takes_the_next_argument_whatever_it_is() {
    assert_eq!(
        parse_options(&args(&["p", "--dir", "--fuzzy", "needle"])),
        Ok(request("--fuzzy", "needle", SearchMode::Exact))
    );
    assert_eq!(
        parse_options(&args(&["p", "-d", "-d", "needle"])),
        Ok(request("-d", "needle", SearchMode::Exact))
    );
}

#[test]
fn option_form_errors() {
    assert_eq!(parse_options(&args(&[])), Err(UsageError::MissingArguments));
    assert_eq!(parse_options(&args(&["p"])), Err(UsageError::MissingArguments));
    assert_eq!(parse_options(&args(&["p", "--fuzzy"])), Err(UsageError::MissingArguments));
    assert_eq!(parse_options(&args(&["p", "-d", "src"])), Err(UsageError::MissingArguments));
    assert_eq!(parse_options(&args(&["p", "needle", "--dir"])), Err(UsageError::MissingDirectory));
    assert_eq!(parse_options(&args(&["p", "-d"])), Err(UsageError::MissingDirectory));
    assert_eq!(
        parse_options(&args(&["p", "needle", "other"])),
        Err(UsageError::UnexpectedArgument { position: 2 })
    );
    assert_eq!(
        parse_options(&args(&["p", "-f", "needle", "-d", "x", "--unknown", "-d"])),
        Err(UsageError::UnexpectedArgument { position: 5 })
    );
    assert_eq!(parse_options(&args(&["p", ""])), Err(UsageError::EmptyQuery));
    assert_eq!(parse_options(&args(&["p", "", "-f"])), Err(UsageError::EmptyQuery));
    assert_eq!(
        parse_options(&args(&["p", "", "again"])),
        Err(UsageError::UnexpectedArgument { position: 2 })
    );
}

#[test]
fn option_form_takes_an_unknown_flag_as_the_query() {
    assert_eq!(
        parse_options(&args(&["p", "--unknown"])),
        Ok(request(".", "--unknown", SearchMode::Exact))
    );
}

#[test]
fn the_program_name_is_never_an_argument() {
    assert_eq!(
        parse_options(&args(&["--fuzzy", "needle"])),
        Ok(request(".", "needle", SearchMode::Exact))
    );
    assert_eq!(parse_options(&args(&["needle"])), Err(UsageError::MissingArguments));
}

#[test]
fn modes_tell_whether_they_are_fuzzy() {
    assert!(SearchMode::Fuzzy.is_fuzzy());
    assert!(!SearchMode::Exact.is_fuzzy());
}
