//! File paths as they stand in a diff: components parted by `/`, the file
//! name, its stem, and what they tell about the file.

use crate::chars::{chars_of, ends_with, find_last, is_str, last_index_of, lemma_last_index_of,
    lowercase, lowercase_of};
use crate::language::{language_of_filename, Language};
use vstd::prelude::*;

verus! {

/// How many characters stand before the first `/`, or in the whole text where
/// it holds none.
pub open spec fn run_len(path: Seq<char>) -> nat
    decreases path.len(),
{
    if path.len() == 0 || path[0] == '/' {
        0
    } else {
        1 + run_len(path.drop_first())
    }
}

/// [`run_len`] is the one position that no `/` precedes and that is the end
/// of the text or holds a `/`.
pub proof fn lemma_run_len(path: Seq<char>, n: int)
    requires
        0 <= n <= path.len(),
        forall|i: int| 0 <= i < n ==> path[i] != '/',
        n == path.len() || path[n] == '/',
    ensures
        run_len(path) == n,
    decreases path.len(),
{
    if n > 0 {
        lemma_run_len(path.drop_first(), n - 1);
    }
}

/// [`run_len`] never passes the end of the text.
pub proof fn lemma_run_len_bound(path: Seq<char>)
    ensures
        run_len(path) <= path.len(),
        path.len() > 0 && path[0] != '/' ==> run_len(path) >= 1,
    decreases path.len(),
{
    if path.len() > 0 && path[0] != '/' {
        lemma_run_len_bound(path.drop_first());
    }
}

/// The components of a path: its maximal runs of characters other than `/`,
/// from left to right. Empty runs, as between two slashes, are no components.
pub open spec fn components(path: Seq<char>) -> Seq<Seq<char>>
    decreases path.len(),
{
    if path.len() == 0 {
        seq![]
    } else if path[0] == '/' {
        components(path.drop_first())
    } else {
        let n = run_len(path) as int;
        proof {
            lemma_run_len_bound(path);
        }
        seq![path.take(n)] + components(path.skip(n))
    }
}

/// The file name among a path's components: the last one other than `.`,
/// unless that one is `..`.
pub open spec fn final_name(parts: Seq<Seq<char>>) -> Option<Seq<char>>
    decreases parts.len(),
{
    if parts.len() == 0 {
        None
    } else if parts.last() == "."@ {
        final_name(parts.drop_last())
    } else if parts.last() == ".."@ {
        None
    } else {
        Some(parts.last())
    }
}

/// The name of the file that a path leads to, if it names one.
pub open spec fn file_name(path: Seq<char>) -> Option<Seq<char>> {
    final_name(components(path))
}

/// A file name without its last extension. A dot at the very start opens no
/// extension.
pub open spec fn file_stem(name: Seq<char>) -> Seq<char> {
    match last_index_of(name, '.') {
        Some(dot) => if dot > 0 {
            name.take(dot)
        } else {
            name
        },
        None => name,
    }
}

/// A lower-case text that spells `test` or `tests`.
pub open spec fn is_test_word(lower: Seq<char>) -> bool {
    lower == "test"@ || lower == "tests"@
}

/// A lower-case text that ends in `_test`, `_tests`, `-test` or `-tests`.
pub open spec fn has_test_ending(lower: Seq<char>) -> bool {
    "_test"@.is_suffix_of(lower) || "_tests"@.is_suffix_of(lower) || "-test"@.is_suffix_of(lower)
        || "-tests"@.is_suffix_of(lower)
}

/// A component that spells `test` or `tests`, in any case.
pub open spec fn is_test_name(component: Seq<char>) -> bool {
    is_test_word(lowercase(component))
}

/// A stem that ends in `_test`, `_tests`, `-test` or `-tests`, in any case.
pub open spec fn has_test_suffix(stem: Seq<char>) -> bool {
    has_test_ending(lowercase(stem))
}

/// Whether one of a path's components is a test directory's name.
pub open spec fn has_test_component(path: Seq<char>) -> bool {
    exists|i: int|
        0 <= i < components(path).len() && is_test_name(#[trigger] components(path)[i])
}

/// Whether a path belongs to a test: one of its components is named `test` or
/// `tests`, or the stem of its file name ends in a test suffix.
pub open spec fn is_test_path(path: Seq<char>) -> bool {
    has_test_component(path) || match file_name(path) {
        Some(name) => has_test_suffix(file_stem(name)),
        None => false,
    }
}

/// The language of the file that a path leads to; unknown where the path
/// names no file.
pub open spec fn language_of_path(path: Seq<char>) -> Language {
    match file_name(path) {
        Some(name) => language_of_filename(name),
        None => Language::Unknown,
    }
}

/// The view of each part, in order.
pub open spec fn views(parts: Seq<&[char]>) -> Seq<Seq<char>> {
    parts.map_values(|part: &[char]| part@)
}

/// Splits a path into its components.
pub fn split_components(path: &[char]) -> (parts: Vec<&[char]>)
    ensures
        views(parts@) == components(path@),
{
    let mut parts: Vec<&[char]> = Vec::new();
    let mut pos: usize = 0;
    assert(path@.skip(0) =~= path@);
    while pos < path.len()
        invariant
            pos <= path.len(),
            components(path@) == views(parts@) + components(path@.skip(pos as int)),
        decreases path.len() - pos,
    {
        let ghost rest = path@.skip(pos as int);
        if path[pos] == '/' {
            assert(rest.drop_first() =~= path@.skip(pos + 1));
            pos += 1;
        } else {
            let start = pos;
            let mut end = pos;
            while end < path.len() && path[end] != '/'
                invariant
                    start <= end <= path.len(),
                    forall|j: int| start <= j < end ==> path@[j] != '/',
                decreases path.len() - end,
            {
                end += 1;
            }
            proof {
                lemma_run_len(rest, end - start);
                assert(rest.take(end - start) =~= path@.subrange(start as int, end as int));
                assert(rest.skip(end - start) =~= path@.skip(end as int));
            }
            let part = &path[start..end];
            parts.push(part);
            pos = end;
        }
    }
    parts
}

/// Picks the file name among a path's components.
pub fn pick_file_name<'a>(parts: &Vec<&'a [char]>) -> (name: Option<&'a [char]>)
    ensures
        match name {
            Some(chars) => final_name(views(parts@)) == Some(chars@),
            None => final_name(views(parts@)) is None,
        },
{
    let mut n: usize = parts.len();
    assert(views(parts@).take(n as int) =~= views(parts@));
    while n > 0
        invariant
            n <= parts.len(),
            final_name(views(parts@)) == final_name(views(parts@).take(n as int)),
        decreases n,
    {
        let last = parts[n - 1];
        assert(views(parts@).take(n as int).drop_last() =~= views(parts@).take(n - 1));
        if is_str(last, ".") {
            n -= 1;
        } else if is_str(last, "..") {
            return None;
        } else {
            return Some(last);
        }
    }
    None
}

/// The stem of a file name.
pub fn stem_of(name: &[char]) -> (stem: &[char])
    ensures
        stem@ == file_stem(name@),
{
    proof {
        lemma_last_index_of(name@, '.');
    }
    match find_last(name, '.') {
        Some(dot) => {
            if dot > 0 {
                &name[0..dot]
            } else {
                name
            }
        },
        None => name,
    }
}

/// Whether a lower-case text spells `test` or `tests`.
pub fn spells_test(lower: &[char]) -> (test: bool)
    ensures
        test == is_test_word(lower@),
{
    is_str(lower, "test") || is_str(lower, "tests")
}

/// Whether a lower-case text ends in `_test`, `_tests`, `-test` or `-tests`.
pub fn ends_in_test(lower: &[char]) -> (test: bool)
    ensures
        test == has_test_ending(lower@),
{
    ends_with(lower, "_test") || ends_with(lower, "_tests") || ends_with(lower, "-test")
        || ends_with(lower, "-tests")
}

/// As [`is_test_file`], on a path held as characters.
pub fn is_test_chars(path: &[char]) -> (test: bool)
    ensures
        test == is_test_path(path@),
{
    let parts = split_components(path);
    let mut i: usize = 0;
    while i < parts.len()
        invariant
            i <= parts.len(),
            views(parts@) == components(path@),
            forall|k: int| 0 <= k < i ==> !is_test_name(#[trigger] components(path@)[k]),
        decreases parts.len() - i,
    {
        let lower = lowercase_of(parts[i]);
        if spells_test(lower.as_slice()) {
            assert(is_test_name(components(path@)[i as int]));
            return true;
        }
        i += 1;
    }
    match pick_file_name(&parts) {
        Some(name) => {
            let lower = lowercase_of(stem_of(name));
            ends_in_test(lower.as_slice())
        },
        None => false,
    }
}

/// As [`detect_language`], on a path held as characters.
pub fn language_of_chars(path: &[char]) -> (language: Language)
    ensures
        language == language_of_path(path@),
{
    let parts = split_components(path);
    match pick_file_name(&parts) {
        Some(name) => Language::from_chars(name),
        None => Language::Unknown,
    }
}

/// Whether a file belongs to a test, judged by its path alone: a directory
/// named `test` or `tests` on the way, or a file name whose stem ends in
/// `_test`, `_tests`, `-test` or `-tests`. Case is ignored.
pub fn is_test_file(file_path: &str) -> (test: bool)
    ensures
        test == is_test_path(file_path@),
{
    let path = chars_of(file_path);
    is_test_chars(path.as_slice())
}

/// The language of a file, judged by the name at the end of its path.
pub fn detect_language(file_path: &str) -> (language: Language)
    ensures
        language == language_of_path(file_path@),
{
    let path = chars_of(file_path);
    language_of_chars(path.as_slice())
}

} // verus!
