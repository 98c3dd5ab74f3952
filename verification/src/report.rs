//! The report: the rows of the table, the widths of its columns, and the
//! lines of text that show them.

use crate::diff::tally_of;
use crate::language::{display_name, languages_by_name, lemma_names_ascend, lemma_rank_inverse,
    precedes, rank, Language, LANGUAGE_COUNT};
use crate::stats::{code_sum, entry_or_zero, lemma_entry_within_sum, sum_upto, CodeStats, Counts,
    Stats};
use vstd::prelude::*;
use vstd::string::{StrSliceExecFns, StringExecFns};

verus! {

/// What a row of the table is about.
#[derive(Debug, Clone, Copy, PartialEq, Eq, Structural)]
pub enum Label {
    /// All comments, whatever the language.
    Comments,
    /// The code of one language.
    Code(Language),
}

/// The numbers of a row, one for each column.
#[derive(Debug, Clone, Copy, PartialEq, Eq, Structural)]
pub enum Column {
    Total,
    Added,
    Removed,
    TestTotal,
    TestAdded,
    TestRemoved,
}

/// The part that a piece of the report plays, by which it can be styled.
#[derive(Debug, Clone, Copy, PartialEq, Eq, Structural)]
pub enum Style {
    /// Spacing and punctuation.
    Plain,
    /// The title above the table.
    Title,
    /// The name of the comments row, where comments outside tests were counted.
    CommentsName,
    /// The name of any other row.
    Name,
    Total,
    Added,
    Removed,
    TestTotal,
    TestAdded,
    TestRemoved,
    /// The rule between the table and the sum.
    Rule,
    /// The words before the sum.
    SumName,
    /// The sum of all changes.
    Sum,
}

/// A row of the table, as the contracts speak of it.
pub struct Entry {
    pub label: Label,
    pub counts: Counts,
}

/// A row of the table.
#[derive(Debug, Clone, Copy)]
pub struct Row {
    pub label: Label,
    pub stats: Stats,
}

impl View for Row {
    type V = Entry;

    open spec fn view(&self) -> Entry {
        Entry { label: self.label, counts: self.stats@ }
    }
}

/// A piece of a line, as the contracts speak of it.
pub struct Piece {
    pub style: Style,
    pub text: Seq<char>,
}

/// A piece of a line: its text, and the part it plays.
#[derive(Debug)]
pub struct Segment {
    pub style: Style,
    pub text: String,
}

impl View for Segment {
    type V = Piece;

    open spec fn view(&self) -> Piece {
        Piece { style: self.style, text: self.text@ }
    }
}

/// The name at the head of a row.
pub open spec fn label_name(label: Label) -> Seq<char> {
    match label {
        Label::Comments => "Comments"@,
        Label::Code(language) => display_name(language),
    }
}

/// The number of a row in a column.
pub open spec fn cell(counts: Counts, column: Column) -> nat {
    match column {
        Column::Total => counts.total(),
        Column::Added => counts.added,
        Column::Removed => counts.removed,
        Column::TestTotal => counts.test_total(),
        Column::TestAdded => counts.test_added,
        Column::TestRemoved => counts.test_removed,
    }
}

/// Counts that earn a row: a total that is not zero, outside tests or in them.
pub open spec fn is_shown(counts: Counts) -> bool {
    counts.total() > 0 || counts.test_total() > 0
}

/// The row of the comments, if any comment was counted.
pub open spec fn comment_rows(comments: Counts) -> Seq<Entry> {
    if is_shown(comments) {
        seq![Entry { label: Label::Comments, counts: comments }]
    } else {
        seq![]
    }
}

/// The rows of the first `n` languages in the order of their display names:
/// one for each language that has an entry whose counts earn a row.
pub open spec fn language_rows(code: Map<Language, Counts>, n: int) -> Seq<Entry>
    decreases n,
{
    if n <= 0 {
        seq![]
    } else {
        let front = language_rows(code, n - 1);
        let language = languages_by_name()[n - 1];
        if code.contains_key(language) && is_shown(code[language]) {
            front.push(Entry { label: Label::Code(language), counts: code[language] })
        } else {
            front
        }
    }
}

/// The rows of the table: comments first, then the languages by name.
pub open spec fn rows_of(code: Map<Language, Counts>, comments: Counts) -> Seq<Entry> {
    comment_rows(comments) + language_rows(code, LANGUAGE_COUNT as int)
}

/// The decimal digit for a number below ten.
pub open spec fn digit(d: nat) -> char {
    if d == 0 {
        '0'
    } else if d == 1 {
        '1'
    } else if d == 2 {
        '2'
    } else if d == 3 {
        '3'
    } else if d == 4 {
        '4'
    } else if d == 5 {
        '5'
    } else if d == 6 {
        '6'
    } else if d == 7 {
        '7'
    } else if d == 8 {
        '8'
    } else {
        '9'
    }
}

/// A number in decimal digits, without leading zeros.
pub open spec fn digits(n: nat) -> Seq<char>
    decreases n,
{
    if n < 10 {
        seq![digit(n)]
    } else {
        digits(n / 10).push(digit(n % 10))
    }
}

/// Ten to the power of `k`.
pub open spec fn pow10(k: nat) -> nat
    decreases k,
{
    if k == 0 {
        1
    } else {
        10 * pow10((k - 1) as nat)
    }
}

/// A number below ten to the `k` has at most `k` digits, and every number
/// has at least one.
pub proof fn lemma_digits_len(n: nat, k: nat)
    requires
        k >= 1,
        n < pow10(k),
    ensures
        1 <= digits(n).len() <= k,
    decreases k,
{
    if n >= 10 {
        assert(pow10(1) == 10) by {
            reveal_with_fuel(pow10, 2);
        }
        lemma_digits_len(n / 10, (k - 1) as nat);
    }
}

/// A number that fits in 128 bits has at most 39 digits.
pub proof fn lemma_digits_fit(n: nat)
    requires
        n <= u128::MAX,
    ensures
        1 <= digits(n).len() <= 39,
{
    assert(pow10(39) == 1000000000000000000000000000000000000000nat) by {
        reveal_with_fuel(pow10, 40);
    }
    lemma_digits_len(n, 39);
}

/// `n` spaces.
pub open spec fn spaces(n: nat) -> Seq<char> {
    Seq::new(n, |i: int| ' ')
}

/// What is missing from `len` to reach `width`.
pub open spec fn gap(len: nat, width: nat) -> nat {
    if width > len {
        (width - len) as nat
    } else {
        0
    }
}

/// A text with spaces before it, up to a width; unchanged where it is wider.
pub open spec fn pad_left(text: Seq<char>, width: nat) -> Seq<char> {
    spaces(gap(text.len(), width)) + text
}

/// A text with spaces after it, up to a width; unchanged where it is wider.
pub open spec fn pad_right(text: Seq<char>, width: nat) -> Seq<char> {
    text + spaces(gap(text.len(), width))
}

/// A number, set to the right in its column.
pub open spec fn number(n: nat, width: nat) -> Seq<char> {
    pad_left(digits(n), width)
}

/// A sign, a space, and a number set to the right in its column.
pub open spec fn signed(sign: char, n: nat, width: nat) -> Seq<char> {
    seq![sign, ' '] + number(n, width)
}

/// The width of a column: that of the longest number in it.
pub open spec fn column_width(rows: Seq<Entry>, column: Column) -> nat
    decreases rows.len(),
{
    if rows.len() == 0 {
        0
    } else {
        let front = column_width(rows.drop_last(), column);
        let here = digits(cell(rows.last().counts, column)).len();
        if here > front {
            here
        } else {
            front
        }
    }
}

/// The width of the column of names: that of the longest name in it.
pub open spec fn name_width(rows: Seq<Entry>) -> nat
    decreases rows.len(),
{
    if rows.len() == 0 {
        0
    } else {
        let front = name_width(rows.drop_last());
        let here = label_name(rows.last().label).len();
        if here > front {
            here
        } else {
            front
        }
    }
}

/// The widths of the columns of a table.
pub struct Measures {
    pub name: nat,
    pub total: nat,
    pub added: nat,
    pub removed: nat,
    pub test_total: nat,
    pub test_added: nat,
    pub test_removed: nat,
}

/// The widths of the columns of some rows: each column is as wide as the
/// longest of its entries.
pub open spec fn measures_of(rows: Seq<Entry>) -> Measures {
    Measures {
        name: name_width(rows),
        total: column_width(rows, Column::Total),
        added: column_width(rows, Column::Added),
        removed: column_width(rows, Column::Removed),
        test_total: column_width(rows, Column::TestTotal),
        test_added: column_width(rows, Column::TestAdded),
        test_removed: column_width(rows, Column::TestRemoved),
    }
}

/// The style of a row's name.
pub open spec fn name_style(entry: Entry) -> Style {
    if entry.label == Label::Comments && entry.counts.total() > 0 {
        Style::CommentsName
    } else {
        Style::Name
    }
}

/// The line of a row in a table of the given widths:
/// `name  total (+ added / - removed)  |  total (+ added / - removed)`, the
/// second group for tests, each part as wide as its column.
pub open spec fn row_line(entry: Entry, widths: Measures) -> Seq<Piece> {
    let counts = entry.counts;
    seq![
        Piece { style: name_style(entry), text: pad_right(label_name(entry.label), widths.name) },
        Piece { style: Style::Plain, text: "  "@ },
        Piece { style: Style::Total, text: number(counts.total(), widths.total) },
        Piece { style: Style::Plain, text: " ("@ },
        Piece { style: Style::Added, text: signed('+', counts.added, widths.added) },
        Piece { style: Style::Plain, text: " / "@ },
        Piece { style: Style::Removed, text: signed('-', counts.removed, widths.removed) },
        Piece { style: Style::Plain, text: ")  |  "@ },
        Piece { style: Style::TestTotal, text: number(counts.test_total(), widths.test_total) },
        Piece { style: Style::Plain, text: " ("@ },
        Piece { style: Style::TestAdded, text: signed('+', counts.test_added, widths.test_added) },
        Piece { style: Style::Plain, text: " / "@ },
        Piece {
            style: Style::TestRemoved,
            text: signed('-', counts.test_removed, widths.test_removed),
        },
        Piece { style: Style::Plain, text: ")"@ },
    ]
}

/// The lines of all rows, in the widths of their table.
pub open spec fn row_lines(rows: Seq<Entry>) -> Seq<Seq<Piece>> {
    Seq::new(rows.len(), |i: int| row_line(rows[i], measures_of(rows)))
}

/// Lines of code changed outside tests, in the first `n` languages.
pub open spec fn production_upto(code: Map<Language, Counts>, n: int) -> nat
    decreases n,
{
    if n <= 0 {
        0
    } else {
        production_upto(code, n - 1) + entry_or_zero(code, languages_by_name()[n - 1]).total()
    }
}

/// Lines of code changed in tests, in the first `n` languages.
pub open spec fn tests_upto(code: Map<Language, Counts>, n: int) -> nat
    decreases n,
{
    if n <= 0 {
        0
    } else {
        tests_upto(code, n - 1) + entry_or_zero(code, languages_by_name()[n - 1]).test_total()
    }
}

/// Lines of code changed outside tests, in all languages.
pub open spec fn production_total(code: Map<Language, Counts>) -> nat {
    production_upto(code, LANGUAGE_COUNT as int)
}

/// Lines of code changed in tests, in all languages.
pub open spec fn tests_total(code: Map<Language, Counts>) -> nat {
    tests_upto(code, LANGUAGE_COUNT as int)
}

/// The sum that the report ends with: all changes that were counted. That
/// is the code changed outside tests, the code changed in tests, and the
/// comments changed outside tests and in them.
pub open spec fn total_changes(code: Map<Language, Counts>, comments: Counts) -> nat {
    production_total(code) + tests_total(code) + comments.total() + comments.test_total()
}

/// Whether some row has a total that is not zero.
pub open spec fn any_total(rows: Seq<Entry>) -> bool {
    exists|i: int| 0 <= i < rows.len() && is_shown(#[trigger] rows[i].counts)
}

/// The width of the rule under a table.
pub open spec fn rule_width(widths: Measures) -> nat {
    widths.name + 2 + widths.total + 3 + 2 + widths.added + 3 + 2 + widths.removed + 1 + 5
        + widths.test_total + 3 + 2 + widths.test_added + 3 + 2 + widths.test_removed + 1
}

/// A rule of `n` box-drawing dashes.
pub open spec fn rule(n: nat) -> Seq<char> {
    Seq::new(n, |i: int| '\u{2500}')
}

/// The closing lines of the report: an empty line, the rule, and the sum
/// under the columns of the names and of the totals.
pub open spec fn closing_lines(widths: Measures, sum: nat) -> Seq<Seq<Piece>> {
    seq![
        seq![],
        seq![Piece { style: Style::Rule, text: rule(rule_width(widths)) }],
        seq![
            Piece { style: Style::SumName, text: pad_right("Total changes"@, widths.name) },
            Piece { style: Style::Plain, text: "  "@ },
            Piece { style: Style::Sum, text: number(sum, widths.total) },
        ],
    ]
}

/// The opening lines of the report: the title between two empty lines.
pub open spec fn opening_lines() -> Seq<Seq<Piece>> {
    seq![seq![], seq![Piece { style: Style::Title, text: "Lines of Code Changes"@ }], seq![]]
}

/// The lines of the report: the opening, one line for each row, and the
/// closing lines where some row has a total that is not zero.
pub open spec fn layout_of(code: Map<Language, Counts>, comments: Counts) -> Seq<Seq<Piece>> {
    let rows = rows_of(code, comments);
    opening_lines() + row_lines(rows) + if any_total(rows) {
        closing_lines(measures_of(rows), total_changes(code, comments))
    } else {
        seq![]
    }
}

/// The text of a line: that of its pieces, one after the other.
pub open spec fn line_text(line: Seq<Piece>) -> Seq<char>
    decreases line.len(),
{
    if line.len() == 0 {
        seq![]
    } else {
        line_text(line.drop_last()) + line.last().text
    }
}

/// The text of some lines: each followed by a line feed.
pub open spec fn text_of(lines: Seq<Seq<Piece>>) -> Seq<char>
    decreases lines.len(),
{
    if lines.len() == 0 {
        seq![]
    } else {
        text_of(lines.drop_last()) + line_text(lines.last()) + seq!['\n']
    }
}

/// The report as plain text.
pub open spec fn report_text(code: Map<Language, Counts>, comments: Counts) -> Seq<char> {
    text_of(layout_of(code, comments))
}

/// The rows behind a run of [`Row`]s.
pub open spec fn entries(rows: Seq<Row>) -> Seq<Entry> {
    rows.map_values(|row: Row| row@)
}

/// The pieces behind a run of [`Segment`]s.
pub open spec fn pieces(line: Seq<Segment>) -> Seq<Piece> {
    line.map_values(|segment: Segment| segment@)
}

/// The lines behind a run of segment lists.
pub open spec fn lines_of(lines: Seq<Vec<Segment>>) -> Seq<Seq<Piece>> {
    lines.map_values(|line: Vec<Segment>| pieces(line@))
}

/// The widths of the columns of a table.
#[derive(Debug, Clone, Copy)]
pub struct Widths {
    pub name: usize,
    pub total: usize,
    pub added: usize,
    pub removed: usize,
    pub test_total: usize,
    pub test_added: usize,
    pub test_removed: usize,
}

impl View for Widths {
    type V = Measures;

    open spec fn view(&self) -> Measures {
        Measures {
            name: self.name as nat,
            total: self.total as nat,
            added: self.added as nat,
            removed: self.removed as nat,
            test_total: self.test_total as nat,
            test_added: self.test_added as nat,
            test_removed: self.test_removed as nat,
        }
    }
}

/// A row's name has between two and ten characters.
pub proof fn lemma_label_name_len(label: Label)
    ensures
        2 <= label_name(label).len() <= 10,
{
    reveal_strlit("Comments");
    reveal_strlit("Rust");
    reveal_strlit("C/C++");
    reveal_strlit("Go");
    reveal_strlit("Python");
    reveal_strlit("JavaScript");
    reveal_strlit("TypeScript");
    reveal_strlit("Java");
    reveal_strlit("CMake");
    reveal_strlit("Shell");
    reveal_strlit("Ruby");
    reveal_strlit("Markdown");
    reveal_strlit("Text");
    reveal_strlit("Dotfiles");
    reveal_strlit("Unknown");
}

/// Every row that a report shows has a total that is not zero.
pub proof fn lemma_rows_are_shown(code: Map<Language, Counts>, comments: Counts)
    ensures
        forall|i: int|
            0 <= i < rows_of(code, comments).len() ==> is_shown(
                #[trigger] rows_of(code, comments)[i].counts,
            ),
{
    lemma_language_rows_are_shown(code, LANGUAGE_COUNT as int);
}

/// Every language row has a total that is not zero.
pub proof fn lemma_language_rows_are_shown(code: Map<Language, Counts>, n: int)
    ensures
        forall|i: int|
            0 <= i < language_rows(code, n).len() ==> is_shown(
                #[trigger] language_rows(code, n)[i].counts,
            ),
    decreases n,
{
    if n > 0 {
        lemma_language_rows_are_shown(code, n - 1);
    }
}

/// The place of a row's language in the order of display names; the row of
/// the comments stands before all of them.
pub open spec fn row_rank(entry: Entry) -> int {
    match entry.label {
        Label::Comments => -1,
        Label::Code(language) => rank(language),
    }
}

/// The rows of the first `n` languages are about languages among those `n`,
/// each later row about a later language.
pub proof fn lemma_language_rows_ranked(code: Map<Language, Counts>, n: int)
    requires
        0 <= n <= LANGUAGE_COUNT,
    ensures
        forall|i: int|
            0 <= i < language_rows(code, n).len() ==> 0 <= row_rank(
                #[trigger] language_rows(code, n)[i],
            ) < n,
        forall|i: int, j: int|
            0 <= i < j < language_rows(code, n).len() ==> row_rank(
                #[trigger] language_rows(code, n)[i],
            ) < row_rank(#[trigger] language_rows(code, n)[j]),
    decreases n,
{
    lemma_rank_inverse();
    if n > 0 {
        lemma_language_rows_ranked(code, n - 1);
        let front = language_rows(code, n - 1);
        let rows = language_rows(code, n);
        assert forall|i: int| 0 <= i < rows.len() implies 0 <= row_rank(#[trigger] rows[i])
            < n by {
            if i < front.len() {
            }
        }
        assert forall|i: int, j: int| 0 <= i < j < rows.len() implies row_rank(
            #[trigger] rows[i],
        ) < row_rank(#[trigger] rows[j]) by {
            if j < front.len() {
            }
        }
    }
}

/// The order of the rows: the comments come first, and the languages follow
/// in the ascending order of their display names.
pub proof fn lemma_rows_in_order(code: Map<Language, Counts>, comments: Counts, i: int, j: int)
    requires
        0 <= i < j < rows_of(code, comments).len(),
    ensures
        rows_of(code, comments)[j].label != Label::Comments,
        rows_of(code, comments)[i].label != Label::Comments ==> precedes(
            label_name(rows_of(code, comments)[i].label),
            label_name(rows_of(code, comments)[j].label),
        ),
{
    lemma_rank_inverse();
    lemma_language_rows_ranked(code, LANGUAGE_COUNT as int);
    let rows = rows_of(code, comments);
    let first = comment_rows(comments).len() as int;
    let others = language_rows(code, LANGUAGE_COUNT as int);
    if rows[i].label != Label::Comments {
        lemma_names_ascend(row_rank(rows[i]), row_rank(rows[j]));
    }
}

/// The lines held for some languages are those changed outside tests and
/// those changed in tests.
pub proof fn lemma_sum_splits(code: Map<Language, Counts>, n: int)
    ensures
        sum_upto(code, n) == production_upto(code, n) + tests_upto(code, n),
    decreases n,
{
    if n > 0 {
        lemma_sum_splits(code, n - 1);
    }
}

/// The sum of a report is the code changed outside tests in all languages,
/// plus the code changed in tests in all languages, plus all comments
/// changed; that is every line counted, of code and of comments. Where some
/// row has a total that is not zero, the report ends with the line of the
/// sum, this is the number on it, and it is not zero.
pub proof fn lemma_report_ends_with_sum(code: Map<Language, Counts>, comments: Counts)
    ensures
        total_changes(code, comments) == production_total(code) + tests_total(code)
            + comments.sum(),
        total_changes(code, comments) == code_sum(code) + comments.sum(),
        any_total(rows_of(code, comments)) ==> total_changes(code, comments) > 0,
        any_total(rows_of(code, comments)) ==> layout_of(code, comments).len() > 0 && layout_of(
            code,
            comments,
        ).last() == seq![
            Piece {
                style: Style::SumName,
                text: pad_right("Total changes"@, measures_of(rows_of(code, comments)).name),
            },
            Piece { style: Style::Plain, text: "  "@ },
            Piece {
                style: Style::Sum,
                text: number(
                    total_changes(code, comments),
                    measures_of(rows_of(code, comments)).total,
                ),
            },
        ],
{
    lemma_sum_splits(code, LANGUAGE_COUNT as int);
    if any_total(rows_of(code, comments)) {
        lemma_shown_rows_count(code, comments);
    }
}

/// A row with a total that is not zero stands for lines that the sum counts.
pub proof fn lemma_shown_rows_count(code: Map<Language, Counts>, comments: Counts)
    requires
        any_total(rows_of(code, comments)),
    ensures
        code_sum(code) + comments.sum() > 0,
{
    lemma_rank_inverse();
    let rows = rows_of(code, comments);
    let i = choose|i: int| 0 <= i < rows.len() && is_shown(#[trigger] rows[i].counts);
    let first = comment_rows(comments).len() as int;
    if i >= first {
        let others = language_rows(code, LANGUAGE_COUNT as int);
        lemma_language_rows_are_entries(code, LANGUAGE_COUNT as int);
        match others[i - first].label {
            Label::Code(language) => {
                lemma_entry_within_sum(code, language, LANGUAGE_COUNT as int);
            },
            Label::Comments => {},
        }
    }
}

/// Each row of a language shows the counts of that language's entry.
pub proof fn lemma_language_rows_are_entries(code: Map<Language, Counts>, n: int)
    ensures
        forall|i: int|
            0 <= i < language_rows(code, n).len() ==> match (#[trigger] language_rows(
                code,
                n,
            )[i]).label {
                Label::Code(language) => code.contains_key(language) && language_rows(
                    code,
                    n,
                )[i].counts == code[language],
                Label::Comments => false,
            },
    decreases n,
{
    if n > 0 {
        lemma_language_rows_are_entries(code, n - 1);
    }
}

/// The sum in the report of a diff, for every diff: the code changed outside
/// tests, plus the code changed in tests, plus all comments changed, as the
/// scan of the diff counted them; that is every line that the scan counted.
/// Where the report has rows, its last line shows that number.
pub proof fn lemma_diff_report_sum(diff: Seq<char>)
    ensures
        total_changes(tally_of(diff).code, tally_of(diff).comments) == production_total(
            tally_of(diff).code,
        ) + tests_total(tally_of(diff).code) + tally_of(diff).comments.sum(),
        total_changes(tally_of(diff).code, tally_of(diff).comments) == tally_of(diff).sum(),
        any_total(rows_of(tally_of(diff).code, tally_of(diff).comments)) ==> layout_of(
            tally_of(diff).code,
            tally_of(diff).comments,
        ).last().len() == 3 && layout_of(tally_of(diff).code, tally_of(diff).comments).last()[2]
            == (Piece {
            style: Style::Sum,
            text: number(
                total_changes(tally_of(diff).code, tally_of(diff).comments),
                measures_of(rows_of(tally_of(diff).code, tally_of(diff).comments)).total,
            ),
        }),
{
    lemma_report_ends_with_sum(tally_of(diff).code, tally_of(diff).comments);
}

/// The report is a function of the counters: the same counters give the same
/// lines and the same text, however often they are laid out.
pub proof fn lemma_same_counters_same_report(
    code: Map<Language, Counts>,
    comments: Counts,
    other_code: Map<Language, Counts>,
    other_comments: Counts,
)
    requires
        code =~= other_code,
        comments == other_comments,
    ensures
        layout_of(code, comments) == layout_of(other_code, other_comments),
        report_text(code, comments) == report_text(other_code, other_comments),
{
}

/// The name at the head of a row.
pub fn label_text(label: Label) -> (name: &'static str)
    ensures
        name@ == label_name(label),
{
    match label {
        Label::Comments => "Comments",
        Label::Code(language) => language.name(),
    }
}

/// The number of a row in a column.
pub fn cell_of(stats: &Stats, column: Column) -> (n: u128)
    ensures
        n == cell(stats@, column),
{
    match column {
        Column::Total => stats.total(),
        Column::Added => stats.added as u128,
        Column::Removed => stats.removed as u128,
        Column::TestTotal => stats.test_total(),
        Column::TestAdded => stats.test_added as u128,
        Column::TestRemoved => stats.test_removed as u128,
    }
}

/// The rows of the table: the comments first, if any was counted, then each
/// language with a total that is not zero, in the order of the display names.
pub fn report_rows(code_stats: &CodeStats, comment_stats: &Stats) -> (rows: Vec<Row>)
    ensures
        entries(rows@) == rows_of(code_stats@, comment_stats@),
{
    let mut rows: Vec<Row> = Vec::new();
    if comment_stats.total() > 0 || comment_stats.test_total() > 0 {
        rows.push(Row { label: Label::Comments, stats: *comment_stats });
    }
    let mut place: usize = 0;
    while place < LANGUAGE_COUNT
        invariant
            place <= LANGUAGE_COUNT,
            entries(rows@) == comment_rows(comment_stats@) + language_rows(
                code_stats@,
                place as int,
            ),
        decreases LANGUAGE_COUNT - place,
    {
        let ghost before = rows@;
        if let Some(language) = Language::ranked(place) {
            if let Some(stats) = code_stats.get(language) {
                if stats.total() > 0 || stats.test_total() > 0 {
                    let row = Row { label: Label::Code(language), stats };
                    rows.push(row);
                    assert(entries(rows@) =~= entries(before).push(row@));
                }
            }
        }
        place += 1;
    }
    rows
}

fn digit_char(d: u8) -> (c: char)
    requires
        d < 10,
    ensures
        c == digit(d as nat),
{
    if d == 0 {
        '0'
    } else if d == 1 {
        '1'
    } else if d == 2 {
        '2'
    } else if d == 3 {
        '3'
    } else if d == 4 {
        '4'
    } else if d == 5 {
        '5'
    } else if d == 6 {
        '6'
    } else if d == 7 {
        '7'
    } else if d == 8 {
        '8'
    } else {
        '9'
    }
}

/// Appends a number in decimal digits.
pub fn push_digits(out: &mut String, n: u128)
    ensures
        final(out)@ == old(out)@ + digits(n as nat),
    decreases n,
{
    if n >= 10 {
        push_digits(out, n / 10);
    }
    let d = (n % 10) as u8;
    out.push(digit_char(d));
    proof {
        if n >= 10 {
        } else {
        }
    }
}

/// How many decimal digits a number has.
pub fn digits_len(n: u128) -> (len: usize)
    ensures
        len == digits(n as nat).len(),
        1 <= len <= 39,
{
    let mut len: usize = 1;
    let mut rest: u128 = n;
    proof {
        lemma_digits_fit(n as nat);
    }
    while rest >= 10
        invariant
            1 <= len,
            digits(n as nat).len() == digits(rest as nat).len() + len - 1,
            digits(n as nat).len() <= 39,
            digits(rest as nat).len() >= 1,
        decreases rest,
    {
        rest = rest / 10;
        proof {
            lemma_digits_fit(rest as nat);
        }
        len += 1;
    }
    len
}

/// Appends `n` spaces.
pub fn push_spaces(out: &mut String, n: usize)
    ensures
        final(out)@ == old(out)@ + spaces(n as nat),
{
    let ghost start = out@;
    let mut i: usize = 0;
    while i < n
        invariant
            i <= n,
            out@ == start + spaces(i as nat),
        decreases n - i,
    {
        out.push(' ');
        i += 1;
    }
}

/// A number, set to the right in a column of the given width.
pub fn number_text(n: u128, width: usize) -> (text: String)
    ensures
        text@ == number(n as nat, width as nat),
{
    let len = digits_len(n);
    let mut text = String::new();
    if width > len {
        push_spaces(&mut text, width - len);
    }
    push_digits(&mut text, n);
    text
}

/// A sign, a space, and a number set to the right in a column of the given
/// width.
pub fn signed_text(sign: char, n: u128, width: usize) -> (text: String)
    ensures
        text@ == signed(sign, n as nat, width as nat),
{
    let len = digits_len(n);
    let mut text = String::new();
    text.push(sign);
    text.push(' ');
    if width > len {
        push_spaces(&mut text, width - len);
    }
    push_digits(&mut text, n);
    text
}

/// A name, set to the left in a column of the given width.
pub fn name_text(name: &str, width: usize) -> (text: String)
    ensures
        text@ == pad_right(name@, width as nat),
{
    let len = name.unicode_len();
    let mut text = String::new();
    text.append(name);
    if width > len {
        push_spaces(&mut text, width - len);
    }
    text
}

/// A rule of `n` dashes.
pub fn rule_text(n: usize) -> (text: String)
    ensures
        text@ == rule(n as nat),
{
    let mut text = String::new();
    let mut i: usize = 0;
    while i < n
        invariant
            i <= n,
            text@ == rule(i as nat),
        decreases n - i,
    {
        text.push('\u{2500}');
        i += 1;
    }
    text
}

/// The widths of the columns of some rows. A table of this library's rows
/// is never wider than 273 characters.
pub fn column_widths(rows: &Vec<Row>) -> (widths: Widths)
    ensures
        widths@ == measures_of(entries(rows@)),
        rule_width(widths@) <= 273,
{
    let mut widths = Widths {
        name: 0,
        total: 0,
        added: 0,
        removed: 0,
        test_total: 0,
        test_added: 0,
        test_removed: 0,
    };
    let mut i: usize = 0;
    while i < rows.len()
        invariant
            i <= rows.len(),
            widths@ == measures_of(entries(rows@).take(i as int)),
            widths.name <= 10,
            widths.total <= 39,
            widths.added <= 39,
            widths.removed <= 39,
            widths.test_total <= 39,
            widths.test_added <= 39,
            widths.test_removed <= 39,
        decreases rows.len() - i,
    {
        let row = &rows[i];
        proof {
            assert(entries(rows@).take(i + 1).drop_last() =~= entries(rows@).take(i as int));
            lemma_label_name_len(row.label);
        }
        let name = label_text(row.label).unicode_len();
        if name > widths.name {
            widths.name = name;
        }
        let total = digits_len(cell_of(&row.stats, Column::Total));
        if total > widths.total {
            widths.total = total;
        }
        let added = digits_len(cell_of(&row.stats, Column::Added));
        if added > widths.added {
            widths.added = added;
        }
        let removed = digits_len(cell_of(&row.stats, Column::Removed));
        if removed > widths.removed {
            widths.removed = removed;
        }
        let test_total = digits_len(cell_of(&row.stats, Column::TestTotal));
        if test_total > widths.test_total {
            widths.test_total = test_total;
        }
        let test_added = digits_len(cell_of(&row.stats, Column::TestAdded));
        if test_added > widths.test_added {
            widths.test_added = test_added;
        }
        let test_removed = digits_len(cell_of(&row.stats, Column::TestRemoved));
        if test_removed > widths.test_removed {
            widths.test_removed = test_removed;
        }
        i += 1;
    }
    assert(entries(rows@).take(i as int) =~= entries(rows@));
    widths
}

fn segment(style: Style, text: String) -> (made: Segment)
    ensures
        made@ == (Piece { style, text: text@ }),
{
    Segment { style, text }
}

fn plain(text: &str) -> (made: Segment)
    ensures
        made@ == (Piece { style: Style::Plain, text: text@ }),
{
    Segment { style: Style::Plain, text: String::from_str(text) }
}

/// The line of a row, in a table of the given widths.
pub fn row_segments(row: &Row, widths: &Widths) -> (line: Vec<Segment>)
    ensures
        pieces(line@) == row_line(row@, widths@),
{
    let stats = &row.stats;
    let name_style = match row.label {
        Label::Comments => if stats.total() > 0 {
            Style::CommentsName
        } else {
            Style::Name
        },
        Label::Code(_) => Style::Name,
    };
    let mut line: Vec<Segment> = Vec::new();
    line.push(segment(name_style, name_text(label_text(row.label), widths.name)));
    line.push(plain("  "));
    line.push(segment(Style::Total, number_text(stats.total(), widths.total)));
    line.push(plain(" ("));
    line.push(segment(Style::Added, signed_text('+', stats.added as u128, widths.added)));
    line.push(plain(" / "));
    line.push(segment(Style::Removed, signed_text('-', stats.removed as u128, widths.removed)));
    line.push(plain(")  |  "));
    line.push(segment(Style::TestTotal, number_text(stats.test_total(), widths.test_total)));
    line.push(plain(" ("));
    line.push(
        segment(Style::TestAdded, signed_text('+', stats.test_added as u128, widths.test_added)),
    );
    line.push(plain(" / "));
    line.push(
        segment(
            Style::TestRemoved,
            signed_text('-', stats.test_removed as u128, widths.test_removed),
        ),
    );
    line.push(plain(")"));
    line
}

/// The sum that the report ends with: all changes counted, of code in all
/// languages and of comments, outside tests and in them.
pub fn sum_of_changes(code_stats: &CodeStats, comment_stats: &Stats) -> (sum: u128)
    ensures
        sum == total_changes(code_stats@, comment_stats@),
{
    let mut production: u128 = 0;
    let mut tests: u128 = 0;
    let mut place: usize = 0;
    while place < LANGUAGE_COUNT
        invariant
            place <= LANGUAGE_COUNT,
            production == production_upto(code_stats@, place as int),
            tests == tests_upto(code_stats@, place as int),
            production <= place * 0x2_0000_0000_0000_0000,
            tests <= place * 0x2_0000_0000_0000_0000,
        decreases LANGUAGE_COUNT - place,
    {
        if let Some(language) = Language::ranked(place) {
            if let Some(stats) = code_stats.get(language) {
                production += stats.total();
                tests += stats.test_total();
            }
        }
        place += 1;
    }
    production + tests + comment_stats.total() + comment_stats.test_total()
}

fn closing_segments(widths: &Widths, sum: u128) -> (lines: Vec<Vec<Segment>>)
    requires
        rule_width(widths@) <= usize::MAX,
    ensures
        lines_of(lines@) == closing_lines(widths@, sum as nat),
{
    let width = widths.name + 2 + widths.total + 3 + 2 + widths.added + 3 + 2 + widths.removed + 1
        + 5 + widths.test_total + 3 + 2 + widths.test_added + 3 + 2 + widths.test_removed + 1;
    let mut rule_line: Vec<Segment> = Vec::new();
    rule_line.push(segment(Style::Rule, rule_text(width)));
    let mut sum_line: Vec<Segment> = Vec::new();
    sum_line.push(segment(Style::SumName, name_text("Total changes", widths.name)));
    sum_line.push(plain("  "));
    sum_line.push(segment(Style::Sum, number_text(sum, widths.total)));
    let mut lines: Vec<Vec<Segment>> = Vec::new();
    lines.push(Vec::new());
    lines.push(rule_line);
    lines.push(sum_line);
    assert(pieces(lines@[0]@) =~= Seq::<Piece>::empty());
    assert(pieces(lines@[1]@) =~= closing_lines(widths@, sum as nat)[1]);
    assert(pieces(lines@[2]@) =~= closing_lines(widths@, sum as nat)[2]);
    lines
}

/// The lines of the report, each as pieces with the part they play.
pub fn layout(code_stats: &CodeStats, comment_stats: &Stats) -> (lines: Vec<Vec<Segment>>)
    ensures
        lines_of(lines@) == layout_of(code_stats@, comment_stats@),
{
    let rows = report_rows(code_stats, comment_stats);
    let widths = column_widths(&rows);
    let ghost shown = entries(rows@);
    let mut title: Vec<Segment> = Vec::new();
    title.push(segment(Style::Title, String::from_str("Lines of Code Changes")));
    let mut lines: Vec<Vec<Segment>> = Vec::new();
    lines.push(Vec::new());
    lines.push(title);
    lines.push(Vec::new());
    assert(pieces(lines@[1]@) =~= opening_lines()[1]);
    assert(pieces(lines@[2]@) =~= Seq::<Piece>::empty());
    let mut i: usize = 0;
    while i < rows.len()
        invariant
            i <= rows.len(),
            shown == entries(rows@),
            widths@ == measures_of(shown),
            lines_of(lines@) == opening_lines() + row_lines(shown).take(i as int),
        decreases rows.len() - i,
    {
        let ghost before = lines@;
        let line = row_segments(&rows[i], &widths);
        lines.push(line);
        assert(lines_of(lines@) =~= lines_of(before).push(row_line(shown[i as int], widths@)));
        i += 1;
    }
    proof {
        lemma_rows_are_shown(code_stats@, comment_stats@);
    }
    if rows.len() > 0 {
        let sum = sum_of_changes(code_stats, comment_stats);
        let mut closing = closing_segments(&widths, sum);
        let ghost before = lines@;
        let ghost added = closing@;
        lines.append(&mut closing);
        assert(lines_of(lines@) =~= lines_of(before) + lines_of(added));
    }
    lines
}

/// The plain text of some lines: the texts of the pieces of each, and a line
/// feed after each line.
pub fn plain_text(lines: &Vec<Vec<Segment>>) -> (text: String)
    ensures
        text@ == text_of(lines_of(lines@)),
{
    let mut text = String::new();
    let mut i: usize = 0;
    while i < lines.len()
        invariant
            i <= lines.len(),
            text@ == text_of(lines_of(lines@).take(i as int)),
        decreases lines.len() - i,
    {
        let line = &lines[i];
        let ghost done = text@;
        let mut j: usize = 0;
        while j < line.len()
            invariant
                j <= line.len(),
                text@ == done + line_text(pieces(line@).take(j as int)),
            decreases line.len() - j,
        {
            text.append(line[j].text.as_str());
            proof {
                let upto = pieces(line@).take(j + 1);
                assert(upto.drop_last() =~= pieces(line@).take(j as int));
            }
            j += 1;
        }
        text.push('\n');
        proof {
            let upto = lines_of(lines@).take(i + 1);
            assert(pieces(line@).take(j as int) =~= pieces(line@));
            assert(upto.drop_last() =~= lines_of(lines@).take(i as int));
        }
        i += 1;
    }
    assert(lines_of(lines@).take(i as int) =~= lines_of(lines@));
    text
}

/// The report as plain text: a title, a line for each row of the table, and
/// the sum of all changes under a rule.
pub fn render(code_stats: &CodeStats, comment_stats: &Stats) -> (text: String)
    ensures
        text@ == report_text(code_stats@, comment_stats@),
{
    let lines = layout(code_stats, comment_stats);
    plain_text(&lines)
}

} // verus!
