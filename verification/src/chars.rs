//! Character sequences: conversions between strings and `Vec<char>`, and the
//! Unicode classes the rest of the library reads through.

use vstd::prelude::*;

verus! {

/// The Unicode lowercase form of a text, as the standard library computes it.
pub uninterp spec fn lowercase(text: Seq<char>) -> Seq<char>;

/// Whether a character has the Unicode `White_Space` property.
pub uninterp spec fn white_space(c: char) -> bool;

/// Whether a character is alphabetic or numeric in Unicode's sense.
pub uninterp spec fn alphanumeric(c: char) -> bool;

/// `str::to_lowercase`: the result is a function of the characters alone, and
/// [`lowercase`] is the name of that function. Nothing else is claimed.
pub assume_specification[ str::to_lowercase ](s: &str) -> (lower: String)
    ensures
        lower@ == lowercase(s@),
;

/// `char::is_whitespace`: the answer depends on the character alone, and
/// [`white_space`] names it.
pub assume_specification[ char::is_whitespace ](c: char) -> (b: bool)
    ensures
        b == white_space(c),
;

/// `char::is_alphanumeric`: the answer depends on the character alone, and
/// [`alphanumeric`] names it.
pub assume_specification[ char::is_alphanumeric ](c: char) -> (b: bool)
    ensures
        b == alphanumeric(c),
;

/// `String::push`: appends one character to the end of the string.
pub assume_specification[ String::push ](s: &mut String, c: char)
    ensures
        final(s)@ == old(s)@.push(c),
;

/// The characters of a string, in order.
pub fn chars_of(s: &str) -> (chars: Vec<char>)
    ensures
        chars@ == s@,
{
    let mut chars: Vec<char> = Vec::new();
    for c in it: s.chars()
        invariant
            it.seq() == s@,
            chars@ == s@.take(it.index() as int),
    {
        chars.push(c);
    }
    chars
}

/// The string made of the given characters, in order.
pub fn string_of(chars: &[char]) -> (s: String)
    ensures
        s@ == chars@,
{
    let mut s = String::new();
    let mut i: usize = 0;
    while i < chars.len()
        invariant
            i <= chars.len(),
            s@ == chars@.take(i as int),
        decreases chars.len() - i,
    {
        s.push(chars[i]);
        i += 1;
    }
    s
}

/// The lowercase form of a run of characters.
pub fn lowercase_of(chars: &[char]) -> (lower: Vec<char>)
    ensures
        lower@ == lowercase(chars@),
{
    let s = string_of(chars);
    let lower = s.as_str().to_lowercase();
    chars_of(lower.as_str())
}

/// Whether two runs of characters are the same.
pub fn same(a: &[char], b: &[char]) -> (r: bool)
    ensures
        r == (a@ == b@),
{
    if a.len() != b.len() {
        return false;
    }
    let mut i: usize = 0;
    while i < a.len()
        invariant
            a.len() == b.len(),
            i <= a.len(),
            forall|j: int| 0 <= j < i ==> a@[j] == b@[j],
        decreases a.len() - i,
    {
        if a[i] != b[i] {
            return false;
        }
        i += 1;
    }
    assert(a@ =~= b@);
    true
}

/// Whether a run of characters spells exactly the given string.
pub fn is_str(text: &[char], word: &str) -> (r: bool)
    ensures
        r == (text@ == word@),
{
    let mut i: usize = 0;
    for c in it: word.chars()
        invariant
            it.seq() == word@,
            i == it.index(),
            i <= text.len(),
            text@.take(i as int) == word@.take(i as int),
    {
        if i >= text.len() || text[i] != c {
            return false;
        }
        i += 1;
    }
    assert(word@.take(i as int) =~= word@);
    assert(i == text.len() ==> text@.take(i as int) =~= text@);
    i == text.len()
}

/// Whether a run of characters begins with the given string.
pub fn starts_with(text: &[char], prefix: &str) -> (r: bool)
    ensures
        r == prefix@.is_prefix_of(text@),
{
    let mut i: usize = 0;
    for c in it: prefix.chars()
        invariant
            it.seq() == prefix@,
            i == it.index(),
            i <= text.len(),
            text@.take(i as int) == prefix@.take(i as int),
    {
        if i >= text.len() || text[i] != c {
            return false;
        }
        i += 1;
    }
    true
}

/// Whether a run of characters ends with the given string.
pub fn ends_with(text: &[char], suffix: &str) -> (r: bool)
    ensures
        r == suffix@.is_suffix_of(text@),
{
    let tail = chars_of(suffix);
    if tail.len() > text.len() {
        return false;
    }
    same(&text[text.len() - tail.len()..text.len()], tail.as_slice())
}

/// The position of the last occurrence of `c`, if there is one.
pub open spec fn last_index_of(text: Seq<char>, c: char) -> Option<int>
    decreases text.len(),
{
    if text.len() == 0 {
        None
    } else if text.last() == c {
        Some(text.len() - 1)
    } else {
        last_index_of(text.drop_last(), c)
    }
}

/// [`last_index_of`] is `None` exactly when `c` does not occur, and otherwise
/// the index of an occurrence after which `c` does not occur again.
pub proof fn lemma_last_index_of(text: Seq<char>, c: char)
    ensures
        match last_index_of(text, c) {
            Some(i) => 0 <= i < text.len() && text[i] == c && forall|j: int|
                i < j < text.len() ==> text[j] != c,
            None => forall|j: int| 0 <= j < text.len() ==> text[j] != c,
        },
    decreases text.len(),
{
    if text.len() > 0 && text.last() != c {
        let front = text.drop_last();
        lemma_last_index_of(front, c);
        match last_index_of(front, c) {
            Some(i) => {
                assert forall|j: int| i < j < text.len() implies text[j] != c by {
                    if j < front.len() {
                        assert(front[j] != c);
                    }
                }
            },
            None => {
                assert forall|j: int| 0 <= j < text.len() implies text[j] != c by {
                    if j < front.len() {
                        assert(front[j] != c);
                    }
                }
            },
        }
    }
}

/// Any index that holds `c` and has no `c` after it is the one that
/// [`last_index_of`] gives.
pub proof fn lemma_last_index_of_unique(text: Seq<char>, c: char, i: int)
    requires
        0 <= i < text.len(),
        text[i] == c,
        forall|j: int| i < j < text.len() ==> text[j] != c,
    ensures
        last_index_of(text, c) == Some(i),
{
    lemma_last_index_of(text, c);
}

/// Finds the last occurrence of `c`.
pub fn find_last(text: &[char], c: char) -> (found: Option<usize>)
    ensures
        match found {
            Some(i) => last_index_of(text@, c) == Some(i as int),
            None => last_index_of(text@, c) is None,
        },
{
    let mut i: usize = text.len();
    while i > 0
        invariant
            i <= text.len(),
            forall|j: int| i <= j < text.len() ==> text@[j] != c,
        decreases i,
    {
        i -= 1;
        if text[i] == c {
            proof {
                lemma_last_index_of_unique(text@, c, i as int);
            }
            return Some(i);
        }
    }
    proof {
        lemma_last_index_of(text@, c);
    }
    None
}

/// The text without its leading whitespace.
pub open spec fn trim_start(text: Seq<char>) -> Seq<char>
    decreases text.len(),
{
    if text.len() > 0 && white_space(text[0]) {
        trim_start(text.drop_first())
    } else {
        text
    }
}

/// The text without its trailing whitespace.
pub open spec fn trim_end(text: Seq<char>) -> Seq<char>
    decreases text.len(),
{
    if text.len() > 0 && white_space(text.last()) {
        trim_end(text.drop_last())
    } else {
        text
    }
}

/// The text without leading and trailing whitespace.
pub open spec fn trim(text: Seq<char>) -> Seq<char> {
    trim_end(trim_start(text))
}

/// Removes leading and trailing whitespace.
pub fn trimmed(text: &[char]) -> (inner: &[char])
    ensures
        inner@ == trim(text@),
{
    let mut from: usize = 0;
    assert(text@.skip(0) =~= text@);
    while from < text.len() && text[from].is_whitespace()
        invariant
            from <= text.len(),
            trim_start(text@) == trim_start(text@.skip(from as int)),
        decreases text.len() - from,
    {
        assert(text@.skip(from as int).drop_first() =~= text@.skip(from + 1));
        from += 1;
    }
    let mut to: usize = text.len();
    while to > from && text[to - 1].is_whitespace()
        invariant
            from <= to <= text.len(),
            trim(text@) == trim_end(text@.subrange(from as int, to as int)),
        decreases to,
    {
        assert(text@.subrange(from as int, to as int).drop_last() =~= text@.subrange(
            from as int,
            to - 1,
        ));
        to -= 1;
    }
    &text[from..to]
}

} // verus!
