//! The skip policy of the traversal: which paths are never read.
//!
//! The policy looks at the path string alone. A path is excluded when it
//! holds one of two markers anywhere, or when the extension of its file name
//! is one of a fixed set. Components of a path are separated by `/`.

use vstd::prelude::*;
use vstd::slice::slice_subrange;
use crate::text::{chars_of, contains_chars, is_substring, occurs_at, same_chars};

verus! {

/// The path holds the name of a directory that is never searched.
pub open spec fn excluded_by_marker(path: Seq<char>) -> bool {
    is_substring("node_modules"@, path) || is_substring(".git"@, path)
}

/// `path` ends in a component that is just `.`.
pub open spec fn ends_with_dot_component(path: Seq<char>) -> bool {
    &&& path.len() > 0
    &&& path.last() == '.'
    &&& (path.len() == 1 || path[path.len() - 2] == '/')
}

/// `path` without the separators and `.` components at its end, which do
/// not change what the path names.
pub open spec fn trimmed(path: Seq<char>) -> Seq<char>
    decreases path.len(),
{
    if path.len() > 0 && (path.last() == '/' || ends_with_dot_component(path)) {
        trimmed(path.drop_last())
    } else {
        path
    }
}

/// The offset of the last `c` in `s`, or -1 where `s` holds none.
pub open spec fn last_index_of(s: Seq<char>, c: char) -> int
    decreases s.len(),
{
    if s.len() == 0 {
        -1
    } else if s.last() == c {
        s.len() - 1
    } else {
        last_index_of(s.drop_last(), c)
    }
}

/// The last component of `path`.
pub open spec fn file_name_of(path: Seq<char>) -> Seq<char> {
    let named = trimmed(path);
    named.skip(last_index_of(named, '/') + 1)
}

/// The extension of `path`: what follows the last dot of its file name.
/// There is none, which is written as the empty text, where the file name
/// has no dot or only the one it begins with.
pub open spec fn extension_of(path: Seq<char>) -> Seq<char> {
    let name = file_name_of(path);
    let dot = last_index_of(name, '.');
    if dot > 0 {
        name.skip(dot + 1)
    } else {
        Seq::empty()
    }
}

/// `extension` marks a file as binary. The comparison respects case.
pub open spec fn is_excluded_extension(extension: Seq<char>) -> bool {
    ||| extension == "exe"@
    ||| extension == "dll"@
    ||| extension == "so"@
    ||| extension == "dylib"@
    ||| extension == "bin"@
    ||| extension == "obj"@
    ||| extension == "o"@
    ||| extension == "a"@
    ||| extension == "lib"@
}

/// The skip policy: the path holds a marker, or its extension is excluded.
pub open spec fn should_skip(path: Seq<char>) -> bool {
    excluded_by_marker(path) || is_excluded_extension(extension_of(path))
}

/// `last_index_of` is the offset `at` when `c` stands there and nowhere
/// after it, and -1 when `c` stands nowhere.
proof fn last_index_found(s: Seq<char>, c: char, at: int)
    requires
        -1 <= at < s.len(),
        at >= 0 ==> s[at] == c,
        forall|j: int| at < j < s.len() ==> s[j] != c,
    ensures
        last_index_of(s, c) == at,
    decreases s.len(),
{
    if s.len() > 0 && s.last() != c {
        last_index_found(s.drop_last(), c, at);
    }
}

/// Trimming `path` leaves its first `end` characters when all that follows
/// them is trimmed away and they themselves end in neither a separator nor a
/// `.` component.
proof fn trimmed_is_prefix(path: Seq<char>, end: int)
    requires
        0 <= end <= path.len(),
        forall|k: int|
            end < k <= path.len() ==> (#[trigger] path.take(k)).last() == '/'
                || ends_with_dot_component(path.take(k)),
        end > 0 ==> path[end - 1] != '/' && !ends_with_dot_component(path.take(end)),
    ensures
        trimmed(path) == path.take(end),
    decreases path.len() - end,
{
    if end == path.len() {
        assert(path.take(end) =~= path);
    } else {
        let len = path.len() as int;
        assert(path.take(len) =~= path);
        assert(path.drop_last() =~= path.take(len - 1));
        let shorter = path.drop_last();
        assert forall|k: int| end < k <= shorter.len() implies (#[trigger] shorter.take(k)).last()
            == '/' || ends_with_dot_component(shorter.take(k)) by {
            assert(shorter.take(k) =~= path.take(k));
        }
        assert(shorter.take(end) =~= path.take(end));
        trimmed_is_prefix(shorter, end);
    }
}

/// Whether the text `chars` is the word `word`.
fn is_word(chars: &[char], word: &str) -> (same: bool)
    ensures
        same == (chars@ == word@),
{
    let letters = chars_of(word);
    same_chars(chars, letters.as_slice())
}

/// Whether `path` holds one of the markers. The files below a directory
/// with such a path are all excluded, so the traversal need not enter it.
pub fn should_prune_dir(path: &str) -> (prune: bool)
    ensures
        prune == excluded_by_marker(path@),
{
    let chars = chars_of(path);
    let modules = chars_of("node_modules");
    let git = chars_of(".git");
    contains_chars(chars.as_slice(), modules.as_slice()) || contains_chars(
        chars.as_slice(),
        git.as_slice(),
    )
}

/// The offsets in `chars` at which the extension of the path begins and
/// ends; both are the same where the path has no extension.
fn extension_range(chars: &Vec<char>) -> (range: (usize, usize))
    ensures
        range.0 <= range.1 <= chars@.len(),
        chars@.subrange(range.0 as int, range.1 as int) == extension_of(chars@),
{
    let n = chars.len();
    let mut end: usize = n;
    while end > 0 && (chars[end - 1] == '/' || (chars[end - 1] == '.' && (end == 1 || chars[end - 2]
        == '/')))
        invariant
            end <= n,
            n == chars@.len(),
            forall|k: int|
                end < k <= n ==> (#[trigger] chars@.take(k)).last() == '/'
                    || ends_with_dot_component(chars@.take(k)),
        decreases end,
    {
        end -= 1;
    }
    proof {
        trimmed_is_prefix(chars@, end as int);
    }
    let ghost named = chars@.take(end as int);
    let mut start: usize = end;
    while start > 0 && chars[start - 1] != '/'
        invariant
            start <= end <= n,
            n == chars@.len(),
            forall|j: int| start <= j < end ==> chars@[j] != '/',
        decreases start,
    {
        start -= 1;
    }
    proof {
        last_index_found(named, '/', start - 1);
        assert(named.skip(start as int) =~= chars@.subrange(start as int, end as int));
    }
    let ghost name = chars@.subrange(start as int, end as int);
    assert(name == file_name_of(chars@));
    let mut dot: usize = end;
    while dot > start && chars[dot - 1] != '.'
        invariant
            start <= dot <= end <= n,
            n == chars@.len(),
            forall|j: int| dot <= j < end ==> chars@[j] != '.',
        decreases dot,
    {
        dot -= 1;
    }
    proof {
        last_index_found(name, '.', dot - 1 - start);
    }
    if dot > start + 1 {
        proof {
            assert(name.skip(dot - start) =~= chars@.subrange(dot as int, end as int));
        }
        (dot, end)
    } else {
        proof {
            assert(chars@.subrange(end as int, end as int) =~= Seq::empty());
        }
        (end, end)
    }
}

/// Decides from the path alone whether a file is passed over: its path
/// holds a marker, or the extension of its name is one of the excluded.
pub fn should_skip_file(path: &str) -> (skip: bool)
    ensures
        skip == should_skip(path@),
{
    if should_prune_dir(path) {
        return true;
    }
    let chars = chars_of(path);
    let (from, to) = extension_range(&chars);
    let extension = slice_subrange(chars.as_slice(), from, to);
    is_word(extension, "exe") || is_word(extension, "dll") || is_word(extension, "so") || is_word(
        extension,
        "dylib",
    ) || is_word(extension, "bin") || is_word(extension, "obj") || is_word(extension, "o")
        || is_word(extension, "a") || is_word(extension, "lib")
}

/// Whatever is appended to a path that holds a marker, the result is
/// excluded: below an excluded directory every path is excluded.
pub proof fn marker_excludes_descendants(dir: Seq<char>, rest: Seq<char>)
    requires
        excluded_by_marker(dir),
    ensures
        excluded_by_marker(dir + rest),
        should_skip(dir + rest),
{
    let whole = dir + rest;
    if is_substring("node_modules"@, dir) {
        let at = choose|at: int| occurs_at("node_modules"@, dir, at);
        assert(whole.subrange(at, at + "node_modules"@.len()) =~= dir.subrange(
            at,
            at + "node_modules"@.len(),
        ));
        assert(occurs_at("node_modules"@, whole, at));
    } else {
        let at = choose|at: int| occurs_at(".git"@, dir, at);
        assert(whole.subrange(at, at + ".git"@.len()) =~= dir.subrange(at, at + ".git"@.len()));
        assert(occurs_at(".git"@, whole, at));
    }
}

} // verus!
