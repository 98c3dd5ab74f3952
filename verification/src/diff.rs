//! The scan of a unified diff: which file each line belongs to, which lines
//! count, and the counters they fall under.

use crate::chars::{alphanumeric, chars_of, starts_with, string_of, trim, trim_start, trimmed,
    white_space};
use crate::language::{lemma_rank_inverse, line_type, line_type_of, Language, LineType,
    LANGUAGE_COUNT};
use crate::path::{is_test_chars, is_test_path, language_of_chars, language_of_path};
use crate::stats::{code_sum, entry_or_zero, lemma_entry_within_sum, lemma_sum_upto_empty,
    lemma_sum_upto_insert, CodeStats, Counts, Stats};
use vstd::prelude::*;

verus! {

/// A line without any letter or digit. The empty line is one.
pub open spec fn is_blank(line: Seq<char>) -> bool {
    forall|i: int| 0 <= i < line.len() ==> !alphanumeric(#[trigger] line[i])
}

/// How many characters stand before the first whitespace, or in the whole
/// text where it holds none.
pub open spec fn token_len(text: Seq<char>) -> nat
    decreases text.len(),
{
    if text.len() == 0 || white_space(text[0]) {
        0
    } else {
        1 + token_len(text.drop_first())
    }
}

/// [`token_len`] is the one position that no whitespace precedes and that is
/// the end of the text or holds whitespace.
pub proof fn lemma_token_len(text: Seq<char>, n: int)
    requires
        0 <= n <= text.len(),
        forall|i: int| 0 <= i < n ==> !white_space(text[i]),
        n == text.len() || white_space(text[n]),
    ensures
        token_len(text) == n,
    decreases text.len(),
{
    if n > 0 {
        lemma_token_len(text.drop_first(), n - 1);
    }
}

/// The token of a text at place `n`, counting from zero; tokens are the
/// maximal runs of characters other than whitespace.
pub open spec fn nth_token(text: Seq<char>, n: nat) -> Option<Seq<char>>
    decreases n,
{
    let rest = trim_start(text);
    if rest.len() == 0 {
        None
    } else {
        let len = token_len(rest) as int;
        if n == 0 {
            Some(rest.take(len))
        } else {
            nth_token(rest.skip(len), (n - 1) as nat)
        }
    }
}

/// A token without the `b/` that marks the new side, where it begins with
/// one. Only that one mark is taken off: a directory named `b` stays.
pub open spec fn strip_new_side(token: Seq<char>) -> Seq<char> {
    if token.len() >= 2 && token[0] == 'b' && token[1] == '/' {
        token.skip(2)
    } else {
        token
    }
}

/// The path that a header line names for the new side of a file: its fourth
/// token, without the leading `b/`. A header of fewer tokens names none.
pub open spec fn header_path(line: Seq<char>) -> Option<Seq<char>> {
    match nth_token(line, 3) {
        Some(token) => Some(strip_new_side(token)),
        None => None,
    }
}

/// The counters of a diff: one set for each language with lines of code, and
/// one set for all comments.
pub struct Tally {
    pub code: Map<Language, Counts>,
    pub comments: Counts,
}

impl Tally {
    /// Nothing counted.
    pub open spec fn empty() -> Tally {
        Tally { code: Map::empty(), comments: Counts::zero() }
    }

    /// All lines counted, code and comments.
    pub open spec fn sum(self) -> nat {
        code_sum(self.code) + self.comments.sum()
    }

    /// These counters after one more line. A comment goes to the comment
    /// counters, whatever its language; code goes to the counters of its
    /// language, which get an entry where they had none. In either, the
    /// counter that the line falls under grows by one.
    pub open spec fn with_line(
        self,
        language: Language,
        kind: LineType,
        is_test: bool,
        is_added: bool,
    ) -> Tally {
        match kind {
            LineType::Comment => Tally { comments: self.comments.bump(is_test, is_added), ..self },
            LineType::Code => Tally {
                code: self.code.insert(
                    language,
                    entry_or_zero(self.code, language).bump(is_test, is_added),
                ),
                ..self
            },
        }
    }

    /// The counter that a line falls under: one of the comment counters for
    /// a comment, one of those of its language for code, zero where the
    /// language has no entry yet.
    pub open spec fn counter_for(
        self,
        language: Language,
        kind: LineType,
        is_test: bool,
        is_added: bool,
    ) -> nat {
        match kind {
            LineType::Comment => self.comments.counter(is_test, is_added),
            LineType::Code => entry_or_zero(self.code, language).counter(is_test, is_added),
        }
    }

    /// Every counter can be held in a `usize`.
    pub open spec fn fits(self) -> bool {
        &&& self.comments.fits()
        &&& forall|language: Language| #[trigger]
            self.code.contains_key(language) ==> self.code[language].fits()
    }

    /// Every entry holds at least one line.
    pub open spec fn entries_hold_lines(self) -> bool {
        forall|language: Language| #[trigger]
            self.code.contains_key(language) ==> self.code[language].sum() > 0
    }
}

/// The counters after one changed line of a file. A line that is blank once
/// trimmed changes nothing. Any other line is counted, trimmed, as a comment
/// or as code in the language of the file, in tests or outside them as the
/// path of the file tells.
pub open spec fn count_line(tally: Tally, content: Seq<char>, path: Seq<char>, is_added: bool)
    -> Tally {
    let line = trim(content);
    if is_blank(line) {
        tally
    } else {
        let language = language_of_path(path);
        tally.with_line(language, line_type(line, language), is_test_path(path), is_added)
    }
}

/// One counted line adds at most one to the lines counted.
pub proof fn lemma_count_line_sum(tally: Tally, content: Seq<char>, path: Seq<char>, is_added: bool)
    ensures
        tally.sum() <= count_line(tally, content, path, is_added).sum() <= tally.sum() + 1,
{
    lemma_sum_upto_insert(
        tally.code,
        language_of_path(path),
        is_test_path(path),
        is_added,
        LANGUAGE_COUNT as int,
    );
}

/// No counter is smaller in `later` than in `earlier`, and `later` has every
/// entry that `earlier` has.
pub open spec fn grown(earlier: Tally, later: Tally) -> bool {
    &&& earlier.comments.at_most(later.comments)
    &&& forall|language: Language| #[trigger]
        earlier.code.contains_key(language) ==> later.code.contains_key(language)
            && earlier.code[language].at_most(later.code[language])
}

/// Counters that have grown into counters that fit did fit before.
pub proof fn lemma_grown_fits(earlier: Tally, later: Tally)
    requires
        grown(earlier, later),
        later.fits(),
    ensures
        earlier.fits(),
{
}

/// Counters whose sum fits in a `usize` fit, each of them.
pub proof fn lemma_sum_fits(tally: Tally)
    requires
        tally.sum() <= usize::MAX,
    ensures
        tally.fits(),
{
    assert forall|language: Language| #[trigger] tally.code.contains_key(language) implies
        tally.code[language].fits() by {
        lemma_rank_inverse();
        lemma_entry_within_sum(tally.code, language, LANGUAGE_COUNT as int);
    }
}

/// No counter falls when a line is counted, and no entry is lost.
pub proof fn lemma_count_line_grows(
    tally: Tally,
    content: Seq<char>,
    path: Seq<char>,
    is_added: bool,
)
    ensures
        grown(tally, count_line(tally, content, path, is_added)),
{
}

/// Where every entry holds a line, every entry still does after a line is
/// counted.
pub proof fn lemma_count_line_keeps_entries(
    tally: Tally,
    content: Seq<char>,
    path: Seq<char>,
    is_added: bool,
)
    requires
        tally.entries_hold_lines(),
    ensures
        count_line(tally, content, path, is_added).entries_hold_lines(),
{
}

/// A line that is blank once trimmed, such as one of spaces or of
/// punctuation alone, leaves every counter as it was.
pub proof fn lemma_blank_line_counts_nothing(
    tally: Tally,
    content: Seq<char>,
    path: Seq<char>,
    is_added: bool,
)
    requires
        is_blank(trim(content)),
    ensures
        count_line(tally, content, path, is_added) == tally,
{
}

/// Where a scan stands: the file of the section it is in, if a header named
/// one, and the counters so far.
pub struct Scan {
    pub current: Option<Seq<char>>,
    pub tally: Tally,
}

/// A line that opens the section of a file.
pub open spec fn is_header(line: Seq<char>) -> bool {
    "diff --git "@.is_prefix_of(line)
}

/// A line that a `+` marks as added; the `+++` line of a file is none.
pub open spec fn is_added_line(line: Seq<char>) -> bool {
    line.len() > 0 && line[0] == '+' && !"+++"@.is_prefix_of(line)
}

/// A line that a `-` marks as removed; the `---` line of a file is none.
pub open spec fn is_removed_line(line: Seq<char>) -> bool {
    line.len() > 0 && line[0] == '-' && !"---"@.is_prefix_of(line)
}

/// The scan after one line. A header sets the current file, to none where it
/// names no path. An added or removed line is counted for the current file,
/// without its first character, and dropped where there is no current file.
/// Every other line is passed over.
pub open spec fn scan_line(scan: Scan, line: Seq<char>) -> Scan {
    if is_header(line) {
        Scan { current: header_path(line), ..scan }
    } else if is_added_line(line) {
        match scan.current {
            Some(path) => Scan { tally: count_line(scan.tally, line.skip(1), path, true), ..scan },
            None => scan,
        }
    } else if is_removed_line(line) {
        match scan.current {
            Some(path) => Scan { tally: count_line(scan.tally, line.skip(1), path, false), ..scan },
            None => scan,
        }
    } else {
        scan
    }
}

/// How many characters stand before the first line feed, or in the whole
/// text where it holds none.
pub open spec fn line_len(text: Seq<char>) -> nat
    decreases text.len(),
{
    if text.len() == 0 || text[0] == '\n' {
        0
    } else {
        1 + line_len(text.drop_first())
    }
}

/// [`line_len`] is the one position that no line feed precedes and that is
/// the end of the text or holds a line feed.
pub proof fn lemma_line_len(text: Seq<char>, n: int)
    requires
        0 <= n <= text.len(),
        forall|i: int| 0 <= i < n ==> text[i] != '\n',
        n == text.len() || text[n] == '\n',
    ensures
        line_len(text) == n,
    decreases text.len(),
{
    if n > 0 {
        lemma_line_len(text.drop_first(), n - 1);
    }
}

/// [`line_len`] never passes the end of the text.
pub proof fn lemma_line_len_bound(text: Seq<char>)
    ensures
        line_len(text) <= text.len(),
    decreases text.len(),
{
    if text.len() > 0 && text[0] != '\n' {
        lemma_line_len_bound(text.drop_first());
    }
}

/// The scan after a whole text, line by line from the top. Lines end at a
/// line feed; the last line needs none.
pub open spec fn scan_text(scan: Scan, text: Seq<char>) -> Scan
    decreases text.len(),
{
    if text.len() == 0 {
        scan
    } else {
        let n = line_len(text) as int;
        proof {
            lemma_line_len_bound(text);
        }
        let next = scan_line(scan, text.take(n));
        if n < text.len() {
            scan_text(next, text.skip(n + 1))
        } else {
            next
        }
    }
}

/// No counter falls over a scan, and no entry is lost.
pub proof fn lemma_scan_text_grows(scan: Scan, text: Seq<char>)
    ensures
        grown(scan.tally, scan_text(scan, text).tally),
    decreases text.len(),
{
    if text.len() > 0 {
        let n = line_len(text) as int;
        lemma_line_len_bound(text);
        let line = text.take(n);
        let next = scan_line(scan, line);
        match scan.current {
            Some(path) => {
                lemma_count_line_grows(scan.tally, line.skip(1), path, true);
                lemma_count_line_grows(scan.tally, line.skip(1), path, false);
            },
            None => {},
        }
        if n < text.len() {
            lemma_scan_text_grows(next, text.skip(n + 1));
        }
    }
}

/// Where every entry holds a line, every entry still does after a scan: a
/// language has an entry only if a line of its code was counted.
pub proof fn lemma_scan_text_keeps_entries(scan: Scan, text: Seq<char>)
    requires
        scan.tally.entries_hold_lines(),
    ensures
        scan_text(scan, text).tally.entries_hold_lines(),
    decreases text.len(),
{
    if text.len() > 0 {
        let n = line_len(text) as int;
        lemma_line_len_bound(text);
        let line = text.take(n);
        let next = scan_line(scan, line);
        match scan.current {
            Some(path) => {
                lemma_count_line_keeps_entries(scan.tally, line.skip(1), path, true);
                lemma_count_line_keeps_entries(scan.tally, line.skip(1), path, false);
            },
            None => {},
        }
        if n < text.len() {
            lemma_scan_text_keeps_entries(next, text.skip(n + 1));
        }
    }
}

/// A scan counts at most one line for each character of its text.
pub proof fn lemma_scan_text_sum(scan: Scan, text: Seq<char>)
    ensures
        scan.tally.sum() <= scan_text(scan, text).tally.sum() <= scan.tally.sum() + text.len(),
    decreases text.len(),
{
    if text.len() > 0 {
        let n = line_len(text) as int;
        lemma_line_len_bound(text);
        let line = text.take(n);
        let next = scan_line(scan, line);
        match scan.current {
            Some(path) => {
                lemma_count_line_sum(scan.tally, line.skip(1), path, true);
                lemma_count_line_sum(scan.tally, line.skip(1), path, false);
            },
            None => {},
        }
        if n < text.len() {
            lemma_scan_text_sum(next, text.skip(n + 1));
        }
    }
}

/// Counters have room for a diff where their sum and the length of the diff
/// together fit in a `usize`: a diff counts fewer lines than it has
/// characters.
pub proof fn lemma_room_for_scan(start: Tally, text: Seq<char>)
    requires
        start.sum() + text.len() <= usize::MAX,
    ensures
        scan_text(Scan { current: None, tally: start }, text).tally.fits(),
{
    lemma_scan_text_sum(Scan { current: None, tally: start }, text);
    lemma_sum_fits(scan_text(Scan { current: None, tally: start }, text).tally);
}

/// The counters of a diff, begun at `start`: the scan opens before any
/// header, with no current file.
pub open spec fn tally_from(start: Tally, text: Seq<char>) -> Tally {
    scan_text(Scan { current: None, tally: start }, text).tally
}

/// The counters of a diff.
pub open spec fn tally_of(text: Seq<char>) -> Tally {
    tally_from(Tally::empty(), text)
}

/// In the counters of a diff, a language has an entry only where a line of
/// its code was counted.
pub proof fn lemma_entries_of_diff(text: Seq<char>)
    ensures
        tally_of(text).entries_hold_lines(),
{
    lemma_scan_text_keeps_entries(Scan { current: None, tally: Tally::empty() }, text);
}

/// What the two sets of counters hold together.
pub open spec fn tally_in(code: &CodeStats, comments: &Stats) -> Tally {
    Tally { code: code@, comments: comments@ }
}

/// As [`is_empty_line`], on a line held as characters.
pub fn is_blank_chars(line: &[char]) -> (blank: bool)
    ensures
        blank == is_blank(line@),
{
    let mut i: usize = 0;
    while i < line.len()
        invariant
            i <= line.len(),
            forall|j: int| 0 <= j < i ==> !alphanumeric(#[trigger] line@[j]),
        decreases line.len() - i,
    {
        if line[i].is_alphanumeric() {
            return false;
        }
        i += 1;
    }
    true
}

/// Whether a line holds nothing to count: it is empty, or none of its
/// characters is a letter or a digit.
pub fn is_empty_line(line: &str) -> (blank: bool)
    ensures
        blank == is_blank(line@),
{
    let text = chars_of(line);
    is_blank_chars(text.as_slice())
}

/// The token of a text at place `n`, counting from zero.
pub fn token_at(text: &[char], n: usize) -> (token: Option<&[char]>)
    ensures
        match token {
            Some(found) => nth_token(text@, n as nat) == Some(found@),
            None => nth_token(text@, n as nat) is None,
        },
{
    let mut pos: usize = 0;
    let mut left: usize = n;
    assert(text@.skip(0) =~= text@);
    loop
        invariant
            pos <= text.len(),
            nth_token(text@, n as nat) == nth_token(text@.skip(pos as int), left as nat),
        decreases left,
    {
        let ghost entry = text@.skip(pos as int);
        while pos < text.len() && text[pos].is_whitespace()
            invariant
                pos <= text.len(),
                trim_start(entry) == trim_start(text@.skip(pos as int)),
            decreases text.len() - pos,
        {
            assert(text@.skip(pos as int).drop_first() =~= text@.skip(pos + 1));
            pos += 1;
        }
        let ghost rest = text@.skip(pos as int);
        if pos >= text.len() {
            return None;
        }
        let start = pos;
        while pos < text.len() && !text[pos].is_whitespace()
            invariant
                start <= pos <= text.len(),
                forall|j: int| start <= j < pos ==> !white_space(text@[j]),
            decreases text.len() - pos,
        {
            pos += 1;
        }
        proof {
            lemma_token_len(rest, pos - start);
            assert(rest.skip(pos - start) =~= text@.skip(pos as int));
        }
        if left == 0 {
            return Some(&text[start..pos]);
        }
        left -= 1;
    }
}

/// As [`extract_file_path`], on a line held as characters.
pub fn header_path_of(line: &[char]) -> (path: Option<&[char]>)
    ensures
        match path {
            Some(found) => header_path(line@) == Some(found@),
            None => header_path(line@) is None,
        },
{
    match token_at(line, 3) {
        Some(token) => {
            if token.len() >= 2 && token[0] == 'b' && token[1] == '/' {
                Some(&token[2..token.len()])
            } else {
                Some(token)
            }
        },
        None => None,
    }
}

/// The path that a header line names for the new side of a file: the fourth
/// of its tokens, which whitespace parts, without the one `b/` that marks the
/// new side. `None` where the line has fewer than four tokens.
pub fn extract_file_path(diff_line: &str) -> (path: Option<String>)
    ensures
        match path {
            Some(found) => header_path(diff_line@) == Some(found@),
            None => header_path(diff_line@) is None,
        },
{
    let line = chars_of(diff_line);
    match header_path_of(line.as_slice()) {
        Some(found) => Some(string_of(found)),
        None => None,
    }
}

/// Counts one line whose language, kind and place are known: a comment
/// under the comment counters, code under the counters of its language.
pub fn record_line(
    code_stats: &mut CodeStats,
    comment_stats: &mut Stats,
    language: Language,
    kind: LineType,
    is_test: bool,
    is_added: bool,
)
    requires
        tally_in(old(code_stats), old(comment_stats)).counter_for(
            language,
            kind,
            is_test,
            is_added,
        ) < usize::MAX,
    ensures
        tally_in(final(code_stats), final(comment_stats)) == tally_in(
            old(code_stats),
            old(comment_stats),
        ).with_line(language, kind, is_test, is_added),
{
    match kind {
        LineType::Code => {
            code_stats.record(language, is_test, is_added);
        },
        LineType::Comment => {
            comment_stats.record(is_test, is_added);
        },
    }
}

/// As [`classify_and_count`], on a line and a path held as characters.
pub fn count_chars(
    content: &[char],
    path: &[char],
    code_stats: &mut CodeStats,
    comment_stats: &mut Stats,
    is_added: bool,
)
    requires
        count_line(tally_in(old(code_stats), old(comment_stats)), content@, path@, is_added).fits(),
    ensures
        tally_in(final(code_stats), final(comment_stats)) == count_line(
            tally_in(old(code_stats), old(comment_stats)),
            content@,
            path@,
            is_added,
        ),
{
    let line = trimmed(content);
    if is_blank_chars(line) {
        return ;
    }
    let language = language_of_chars(path);
    let kind = line_type_of(line, language);
    let is_test = is_test_chars(path);
    proof {
        let before = tally_in(code_stats, comment_stats);
        let after = before.with_line(language, kind, is_test, is_added);
        if kind == LineType::Code {
            assert(after.code.contains_key(language));
        }
    }
    record_line(code_stats, comment_stats, language, kind, is_test, is_added);
}

/// Counts one changed line of a file. The line comes without the `+` or `-`
/// that marked it; `is_added` tells which it was. The counter that the line
/// falls under must have room for it; a blank line needs none.
pub fn classify_and_count(
    line: &str,
    file_path: &str,
    code_stats: &mut CodeStats,
    comment_stats: &mut Stats,
    is_added: bool,
)
    requires
        count_line(
            tally_in(old(code_stats), old(comment_stats)),
            line@,
            file_path@,
            is_added,
        ).fits(),
    ensures
        tally_in(final(code_stats), final(comment_stats)) == count_line(
            tally_in(old(code_stats), old(comment_stats)),
            line@,
            file_path@,
            is_added,
        ),
{
    let content = chars_of(line);
    let path = chars_of(file_path);
    count_chars(content.as_slice(), path.as_slice(), code_stats, comment_stats, is_added);
}

/// The path that a scan holds, as characters.
pub open spec fn path_view(current: Option<&[char]>) -> Option<Seq<char>> {
    match current {
        Some(path) => Some(path@),
        None => None,
    }
}

/// As [`parse_diff`], on a diff held as characters.
pub fn scan_chars(text: &[char], code_stats: &mut CodeStats, comment_stats: &mut Stats)
    requires
        tally_from(tally_in(old(code_stats), old(comment_stats)), text@).fits(),
    ensures
        tally_in(final(code_stats), final(comment_stats)) == tally_from(
            tally_in(old(code_stats), old(comment_stats)),
            text@,
        ),
{
    let ghost start = tally_in(code_stats, comment_stats);
    let mut current: Option<&[char]> = None;
    let mut pos: usize = 0;
    assert(text@.skip(0) =~= text@);
    while pos < text.len()
        invariant
            pos <= text.len(),
            scan_text(Scan { current: None, tally: start }, text@).tally.fits(),
            scan_text(Scan { current: None, tally: start }, text@) == scan_text(
                Scan { current: path_view(current), tally: tally_in(code_stats, comment_stats) },
                text@.skip(pos as int),
            ),
        decreases text.len() - pos,
    {
        let ghost rest = text@.skip(pos as int);
        let ghost before = Scan {
            current: path_view(current),
            tally: tally_in(code_stats, comment_stats),
        };
        let from = pos;
        let mut to = pos;
        while to < text.len() && text[to] != '\n'
            invariant
                from <= to <= text.len(),
                forall|j: int| from <= j < to ==> text@[j] != '\n',
            decreases text.len() - to,
        {
            to += 1;
        }
        let line = &text[from..to];
        proof {
            lemma_line_len(rest, to - from);
            assert(rest.take(to - from) =~= line@);
            let after = scan_line(before, line@);
            if to < text.len() {
                assert(rest.skip(to - from + 1) =~= text@.skip(to + 1));
                lemma_scan_text_grows(after, text@.skip(to + 1));
                lemma_grown_fits(after.tally, scan_text(after, text@.skip(to + 1)).tally);
            }
        }
        if starts_with(line, "diff --git ") {
            current = header_path_of(line);
        } else if line.len() > 0 && line[0] == '+' && !starts_with(line, "+++") {
            if let Some(path) = current {
                count_chars(&line[1..line.len()], path, code_stats, comment_stats, true);
            }
        } else if line.len() > 0 && line[0] == '-' && !starts_with(line, "---") {
            if let Some(path) = current {
                count_chars(&line[1..line.len()], path, code_stats, comment_stats, false);
            }
        }
        pos = if to < text.len() {
            to + 1
        } else {
            to
        };
    }
}

/// Scans a unified diff and counts its changed lines into the two sets of
/// counters, on top of what they hold. The counters must have room for what
/// the diff adds to them.
pub fn parse_diff(diff: &str, code_stats: &mut CodeStats, comment_stats: &mut Stats)
    requires
        tally_from(tally_in(old(code_stats), old(comment_stats)), diff@).fits(),
    ensures
        tally_in(final(code_stats), final(comment_stats)) == tally_from(
            tally_in(old(code_stats), old(comment_stats)),
            diff@,
        ),
{
    let text = chars_of(diff);
    scan_chars(text.as_slice(), code_stats, comment_stats);
}

/// Scans a unified diff and gives the counters of its changed lines: those
/// of code, by language, and those of comments.
pub fn parse(diff: &str) -> (counted: (CodeStats, Stats))
    ensures
        tally_in(&counted.0, &counted.1) == tally_of(diff@),
{
    let text = chars_of(diff);
    let mut code_stats = CodeStats::new();
    let mut comment_stats = Stats::new();
    proof {
        lemma_sum_upto_empty(LANGUAGE_COUNT as int);
        lemma_room_for_scan(Tally::empty(), text@);
    }
    scan_chars(text.as_slice(), &mut code_stats, &mut comment_stats);
    (code_stats, comment_stats)
}

} // verus!
