use rust_search::{format_match, search_entry, search_in_directory, MatchResult, SkipReason, WalkedEntry};

fn file(path: &str, content: &[u8]) -> WalkedEntry {
    WalkedEntry { path: path.to_string(), is_file: true, content: Some(content.to_vec()) }
}

fn unreadable(path: &str) -> WalkedEntry {
    WalkedEntry { path: path.to_string(), is_file: true, content: None }
}

fn directory(path: &str) -> WalkedEntry {
    WalkedEntry { path: path.to_string(), is_file: false, content: None }
}

fn hit(path: &str, line_number: usize, line_text: &str) -> MatchResult {
    MatchResult { file_path: path.to_string(), line_number, line_text: line_text.to_string() }
}

#[test]
fn a_text_file_beside_a_binary_file() {
    let entries = vec![file("a.txt", b"find this pattern"), file("b.bin", &[0x00, 0xff, 0x70, 0x61])];
    let found = search_in_directory(&entries, "pattern", false);
    let output: Vec<String> = found.iter().map(format_match).collect();
    assert_eq!(output, vec!["a.txt:1:find this pattern".to_string()]);
}

#[test]
fn a_binary_file_without_a_telling_name_is_passed_over() {
    let entries = vec![
        file("first.txt", b"pattern one\n"),
        file("blob", &[0x70, 0x61, 0x74, 0x74, 0x65, 0x72, 0x6e, 0xff]),
        file("last.txt", b"nothing\nthe pattern again\n"),
    ];
    assert_eq!(search_entry(&entries[1], "pattern", false), Err(SkipReason::NotText));
    let found = search_in_directory(&entries, "pattern", false);
    assert_eq!(found, vec![hit("first.txt", 1, "pattern one"), hit("last.txt", 2, "the pattern again")]);
    let without = vec![entries[0].clone(), entries[2].clone()];
    assert_eq!(search_in_directory(&without, "pattern", false), found);
}

#[test]
fn each_entry_is_skipped_for_its_first_reason() {
    assert_eq!(search_entry(&directory("src"), "x", false), Err(SkipReason::NotAFile));
    assert_eq!(search_entry(&directory("node_modules"), "x", false), Err(SkipReason::NotAFile));
    assert_eq!(search_entry(&unreadable("a.exe"), "x", false), Err(SkipReason::ExcludedPath));
    assert_eq!(search_entry(&file("a.exe", b"x"), "x", false), Err(SkipReason::ExcludedPath));
    assert_eq!(search_entry(&file(".git/config", b"x"), "x", true), Err(SkipReason::ExcludedPath));
    assert_eq!(search_entry(&unreadable("a.txt"), "x", false), Err(SkipReason::Unreadable));
    assert_eq!(search_entry(&file("a.txt", &[0xff]), "x", false), Err(SkipReason::NotText));
    assert_eq!(search_entry(&file("a.txt", b"x"), "x", false), Ok(vec![hit("a.txt", 1, "x")]));
}

#[test]
fn excluded_paths_are_never_reported() {
    let entries = vec![
        file("node_modules/pkg/readme.txt", b"needle"),
        file("repo/.git/HEAD", b"needle"),
        file("tool.exe", b"needle"),
        file("lib/native.so", b"needle"),
        file("src/needle.rs", b"// needle"),
    ];
    for fuzzy in [false, true] {
        let found = search_in_directory(&entries, "needle", fuzzy);
        assert_eq!(found, vec![hit("src/needle.rs", 1, "// needle")]);
    }
}

#[test]
fn matches_come_in_traversal_order_then_line_order() {
    let entries = vec![
        file("z.txt", b"hit 1\nmiss\nhit 2\n"),
        directory("sub"),
        unreadable("sub/locked.txt"),
        file("sub/a.txt", b"miss\nhit 3"),
        file("b.txt", b"hit 4\r\n"),
    ];
    let found = search_in_directory(&entries, "HIT", false);
    assert_eq!(
        found,
        vec![
            hit("z.txt", 1, "hit 1"),
            hit("z.txt", 3, "hit 2"),
            hit("sub/a.txt", 2, "hit 3"),
            hit("b.txt", 1, "hit 4"),
        ]
    );
}

#[test]
fn no_entries_no_matches() {
    assert_eq!(search_in_directory(&vec![], "x", false), vec![]);
    assert_eq!(search_in_directory(&vec![directory(".")], "", true), vec![]);
}

#[test]
fn a_single_file_as_root() {
    let entries = vec![file("notes.txt", b"one\ntwo\n")];
    assert_eq!(search_in_directory(&entries, "two", true), vec![hit("notes.txt", 2, "two")]);
    let excluded = vec![file("notes.bin", b"one\ntwo\n")];
    assert_eq!(search_in_directory(&excluded, "two", true), vec![]);
}
