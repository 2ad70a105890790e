use rust_search::fuzzy::{fuzzy_found, is_subsequence_of};
use rust_search::text::{chars_of, contains_chars};
use rust_search::{should_skip_file, split_lines};
use std::path::Path;

/// All texts over `alphabet` of at most `max_len` characters.
fn all_texts(alphabet: &[char], max_len: usize) -> Vec<String> {
    let mut texts = vec![String::new()];
    let mut from = 0;
    for _ in 0..max_len {
        let to = texts.len();
        for i in from..to {
            for c in alphabet {
                let mut longer = texts[i].clone();
                longer.push(*c);
                texts.push(longer);
            }
        }
        from = to;
    }
    texts
}

fn skip_by_std_path(path: &str) -> bool {
    let extension = Path::new(path).extension().and_then(|e| e.to_str()).unwrap_or("");
    let skip_extensions = ["exe", "dll", "so", "dylib", "bin", "obj", "o", "a", "lib"];
    if path.contains("node_modules") || path.contains(".git") {
        return true;
    }
    skip_extensions.contains(&extension)
}

#[test]
fn skip_policy_agrees_with_path_extension_on_all_short_paths() {
    for path in all_texts(&['/', '.', 'o', 's', 'x'], 6) {
        assert_eq!(should_skip_file(&path), skip_by_std_path(&path), "path {:?}", path);
    }
}

#[test]
fn skip_policy_agrees_with_path_extension_below_directories() {
    for tail in all_texts(&['/', '.', 'a'], 5) {
        for head in ["dir/", "a.o/", "./", "/", "x.so", ".gi", "../"] {
            let path = format!("{}{}", head, tail);
            assert_eq!(should_skip_file(&path), skip_by_std_path(&path), "path {:?}", path);
        }
    }
}

#[test]
fn lines_agree_with_the_standard_library_on_all_short_texts() {
    for text in all_texts(&['a', '\n', '\r'], 7) {
        let expect: Vec<String> = text.lines().map(|l| l.to_string()).collect();
        assert_eq!(split_lines(&text), expect, "text {:?}", text);
    }
}

#[test]
fn the_scorer_finds_exactly_the_ordered_subsequences() {
    let lines = all_texts(&['a', 'A', 'b', 'é'], 4);
    let patterns = all_texts(&['a', 'A', 'b', 'é'], 3);
    for line in &lines {
        let text = chars_of(line);
        for pattern in &patterns {
            let wanted = chars_of(pattern);
            let case_sensitive = pattern.contains('A');
            assert_eq!(
                fuzzy_found(line, pattern),
                is_subsequence_of(&wanted, &text, case_sensitive),
                "{:?} in {:?}",
                pattern,
                line
            );
        }
    }
}

#[test]
fn containment_agrees_with_the_standard_library() {
    let texts = all_texts(&['a', 'b'], 5);
    for hay in &texts {
        for needle in &texts {
            assert_eq!(
                contains_chars(&chars_of(hay), &chars_of(needle)),
                hay.contains(needle.as_str()),
                "{:?} in {:?}",
                needle,
                hay
            );
        }
    }
}
