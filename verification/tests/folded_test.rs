use rust_search::{fold_lines, lowered_line_matches, search_in_lines, FoldedLine, MatchResult};

fn folded(text: &str, lowered: &str) -> FoldedLine {
    FoldedLine { text: text.to_string(), lowered: lowered.to_string() }
}

fn hit(path: &str, line_number: usize, line_text: &str) -> MatchResult {
    MatchResult { file_path: path.to_string(), line_number, line_text: line_text.to_string() }
}

#[test]
fn lines_are_folded_to_lower_case() {
    let lines = vec!["Line ONE".to_string(), String::new(), "ÄPFEL".to_string(), "ΌΣΟΣ".to_string()];
    assert_eq!(
        fold_lines(lines),
        vec![folded("Line ONE", "line one"), folded("", ""), folded("ÄPFEL", "äpfel"), folded("ΌΣΟΣ", "όσος")]
    );
    assert_eq!(fold_lines(vec![]), vec![]);
}

#[test]
fn lowered_lines_are_compared_as_they_stand() {
    assert!(lowered_line_matches("line two", "two", false));
    assert!(!lowered_line_matches("LINE TWO", "two", false));
    assert!(!lowered_line_matches("line two", "TWO", false));
    assert!(lowered_line_matches("line two", "lw", true));
    assert!(lowered_line_matches("LINE TWO", "lw", true));
    assert!(!lowered_line_matches("line two", "LW", true));
    assert!(lowered_line_matches("line two", "", true));
    assert!(lowered_line_matches("", "", false));
}

#[test]
fn selected_lines_keep_their_text_and_number() {
    let lines = vec![folded("First", "first"), folded("Second", "2nd"), folded("THIRD", "third")];
    assert_eq!(
        search_in_lines("f.txt", &lines, "ir", false),
        vec![hit("f.txt", 1, "First"), hit("f.txt", 3, "THIRD")]
    );
    assert_eq!(search_in_lines("f.txt", &lines, "2", false), vec![hit("f.txt", 2, "Second")]);
    assert_eq!(search_in_lines("f.txt", &lines, "Second", false), vec![]);
    assert_eq!(
        search_in_lines("f.txt", &lines, "d", true),
        vec![hit("f.txt", 2, "Second"), hit("f.txt", 3, "THIRD")]
    );
    assert_eq!(search_in_lines("f.txt", &vec![], "", true), vec![]);
}
