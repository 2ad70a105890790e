use rust_search::report::decimal_string;
use rust_search::{format_match, search_in_file, MatchResult};

#[test]
fn a_match_is_rendered_with_colons() {
    let found = MatchResult {
        file_path: "a.txt".to_string(),
        line_number: 1,
        line_text: "find this pattern".to_string(),
    };
    assert_eq!(format_match(&found), "a.txt:1:find this pattern");
}

#[test]
fn rendering_keeps_the_text_as_it_is() {
    let found = MatchResult {
        file_path: "dir/ü:b.txt".to_string(),
        line_number: 120,
        line_text: " :x: ".to_string(),
    };
    assert_eq!(format_match(&found), "dir/ü:b.txt:120: :x: ");
    let empty = MatchResult { file_path: String::new(), line_number: 7, line_text: String::new() };
    assert_eq!(format_match(&empty), ":7:");
}

#[test]
fn numbers_are_written_in_decimal() {
    for n in [0usize, 1, 9, 10, 11, 99, 100, 101, 1234567890, 4294967295, usize::MAX] {
        assert_eq!(decimal_string(n), n.to_string());
    }
    assert_eq!(decimal_string(42), "42");
    assert_eq!(decimal_string(1000), "1000");
}

#[test]
fn a_found_line_is_reported_as_path_number_text() {
    let found = search_in_file("notes.md", "one\ntwo\nthree\n".as_bytes(), "TWO", false).unwrap();
    let rendered: Vec<String> = found.iter().map(format_match).collect();
    assert_eq!(rendered, vec!["notes.md:2:two".to_string()]);
}
