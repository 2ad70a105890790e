use rust_search::{search_in_content, split_lines};

fn strings(lines: &[&str]) -> Vec<String> {
    lines.iter().map(|l| l.to_string()).collect()
}

#[test]
fn the_empty_text_has_no_lines() {
    assert_eq!(split_lines(""), strings(&[]));
}

#[test]
fn a_text_without_line_feed_is_one_line() {
    assert_eq!(split_lines("only"), strings(&["only"]));
    assert_eq!(split_lines(" "), strings(&[" "]));
}

#[test]
fn a_final_line_feed_adds_no_line() {
    assert_eq!(split_lines("a\nb"), strings(&["a", "b"]));
    assert_eq!(split_lines("a\nb\n"), strings(&["a", "b"]));
    assert_eq!(split_lines("a\nb\r\n"), strings(&["a", "b"]));
}

#[test]
fn empty_lines_are_lines() {
    assert_eq!(split_lines("\n"), strings(&[""]));
    assert_eq!(split_lines("\n\n"), strings(&["", ""]));
    assert_eq!(split_lines("a\n\nb"), strings(&["a", "", "b"]));
    assert_eq!(split_lines("\na"), strings(&["", "a"]));
}

#[test]
fn a_carriage_return_goes_only_with_its_line_feed() {
    assert_eq!(split_lines("a\r\nb"), strings(&["a", "b"]));
    assert_eq!(split_lines("a\rb\n"), strings(&["a\rb"]));
    assert_eq!(split_lines("a\r"), strings(&["a\r"]));
    assert_eq!(split_lines("a\r\r\n"), strings(&["a\r"]));
    assert_eq!(split_lines("\r\n"), strings(&[""]));
    assert_eq!(split_lines("\r"), strings(&["\r"]));
    assert_eq!(split_lines("\n\r"), strings(&["", "\r"]));
}

#[test]
fn lines_agree_with_the_standard_library() {
    let texts = [
        "", "a", "a\n", "a\r\n", "a\r", "\n", "\r\n", "\r", "a\n\nb", "a\r\n\r\nb\r",
        "a\n\r\nb\n", "\n\n", "x\r\r\n", "é\nü", "one\ntwo\nthree", "one\ntwo\nthree\n",
        "\n\n\n", "\r\n\r\n", "a\u{2028}b\nc", "a\u{0085}b", "tab\there\n",
    ];
    for t in texts {
        let expect: Vec<String> = t.lines().map(|l| l.to_string()).collect();
        assert_eq!(split_lines(t), expect, "text {:?}", t);
    }
}

#[test]
fn line_numbers_count_from_one() {
    let found = search_in_content("f", "x\ny\nx", "x", false);
    let numbers: Vec<usize> = found.iter().map(|m| m.line_number).collect();
    assert_eq!(numbers, vec![1, 3]);
}

#[test]
fn line_numbers_count_empty_lines() {
    let found = search_in_content("f", "\n\n\nhit\n\nhit", "hit", false);
    let numbers: Vec<usize> = found.iter().map(|m| m.line_number).collect();
    assert_eq!(numbers, vec![4, 6]);
}

#[test]
fn line_numbers_do_not_depend_on_the_final_line_feed() {
    for query in ["b", "a", "c", ""] {
        for fuzzy in [false, true] {
            let without = search_in_content("f", "a\nb\nab\nc", query, fuzzy);
            let with = search_in_content("f", "a\nb\nab\nc\n", query, fuzzy);
            let with_crlf = search_in_content("f", "a\nb\nab\nc\r\n", query, fuzzy);
            assert_eq!(without, with);
            assert_eq!(without, with_crlf);
        }
    }
}

#[test]
fn the_line_text_has_no_terminator() {
    let found = search_in_content("f", "first\r\nsecond\n", "s", false);
    assert_eq!(found.len(), 2);
    assert_eq!(found[0].line_text, "first");
    assert_eq!(found[1].line_text, "second");
}
