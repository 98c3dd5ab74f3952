use git_diff_loc::diff::parse;
use git_diff_loc::language::Language;
use git_diff_loc::report::{
    cell_of, column_widths, digits_len, label_text, layout, name_text, number_text, plain_text,
    push_digits, push_spaces, render, report_rows, row_segments, rule_text, signed_text,
    sum_of_changes, Column, Label, Row, Style, Widths,
};
use git_diff_loc::stats::{CodeStats, Stats};

fn stats(added: usize, removed: usize, test_added: usize, test_removed: usize) -> Stats {
    Stats { added, removed, test_added, test_removed }
}

fn record(code: &mut CodeStats, language: Language, counts: Stats) {
    for _ in 0..counts.added {
        code.record(language, false, true);
    }
    for _ in 0..counts.removed {
        code.record(language, false, false);
    }
    for _ in 0..counts.test_added {
        code.record(language, true, true);
    }
    for _ in 0..counts.test_removed {
        code.record(language, true, false);
    }
}

#[test]
fn counters_start_at_zero() {
    assert_eq!(Stats::new(), stats(0, 0, 0, 0));
    assert_eq!(Stats::default(), stats(0, 0, 0, 0));
    assert!(Stats::new().is_zero());
    assert_eq!(CodeStats::new().get(Language::Rust), None);
}

#[test]
fn totals() {
    let counts = stats(3, 4, 5, 6);
    assert_eq!(counts.total(), 7);
    assert_eq!(counts.test_total(), 11);
    assert!(!counts.is_zero());
}

#[test]
fn totals_do_not_overflow() {
    let counts = stats(usize::MAX, usize::MAX, usize::MAX, 1);
    assert_eq!(counts.total(), 2 * (usize::MAX as u128));
    assert_eq!(counts.test_total(), usize::MAX as u128 + 1);
}

#[test]
fn record_raises_one_counter() {
    let mut counts = Stats::new();
    counts.record(false, true);
    assert_eq!(counts, stats(1, 0, 0, 0));
    counts.record(false, false);
    assert_eq!(counts, stats(1, 1, 0, 0));
    counts.record(true, true);
    assert_eq!(counts, stats(1, 1, 1, 0));
    counts.record(true, false);
    assert_eq!(counts, stats(1, 1, 1, 1));
    counts.record(true, false);
    assert_eq!(counts, stats(1, 1, 1, 2));
}

#[test]
fn an_entry_appears_with_its_first_line() {
    let mut code = CodeStats::new();
    assert_eq!(code.get(Language::Go), None);
    code.record(Language::Go, true, false);
    assert_eq!(code.get(Language::Go), Some(stats(0, 0, 0, 1)));
    assert_eq!(code.get(Language::Rust), None);
    code.record(Language::Rust, false, true);
    code.record(Language::Go, false, true);
    assert_eq!(code.get(Language::Go), Some(stats(1, 0, 0, 1)));
    assert_eq!(code.get(Language::Rust), Some(stats(1, 0, 0, 0)));
}

#[test]
fn cells_of_a_row() {
    let counts = stats(3, 4, 5, 6);
    assert_eq!(cell_of(&counts, Column::Total), 7);
    assert_eq!(cell_of(&counts, Column::Added), 3);
    assert_eq!(cell_of(&counts, Column::Removed), 4);
    assert_eq!(cell_of(&counts, Column::TestTotal), 11);
    assert_eq!(cell_of(&counts, Column::TestAdded), 5);
    assert_eq!(cell_of(&counts, Column::TestRemoved), 6);
}

#[test]
fn decimal_digits() {
    let mut text = String::from("n=");
    push_digits(&mut text, 0);
    assert_eq!(text, "n=0");
    let mut text = String::new();
    push_digits(&mut text, 9);
    push_digits(&mut text, 10);
    push_digits(&mut text, 1234567890);
    assert_eq!(text, "9101234567890");
    let mut text = String::new();
    push_digits(&mut text, u128::MAX);
    assert_eq!(text, "340282366920938463463374607431768211455");
}

#[test]
fn digit_counts() {
    assert_eq!(digits_len(0), 1);
    assert_eq!(digits_len(9), 1);
    assert_eq!(digits_len(10), 2);
    assert_eq!(digits_len(99), 2);
    assert_eq!(digits_len(100), 3);
    assert_eq!(digits_len(18446744073709551615), 20);
    assert_eq!(digits_len(u128::MAX), 39);
}

#[test]
fn numbers_are_set_to_the_right() {
    assert_eq!(number_text(305, 5), "  305");
    assert_eq!(number_text(305, 3), "305");
    assert_eq!(number_text(305, 1), "305");
    assert_eq!(number_text(0, 0), "0");
    assert_eq!(number_text(7, 2), " 7");
}

#[test]
fn signed_numbers() {
    assert_eq!(signed_text('+', 12, 4), "+   12");
    assert_eq!(signed_text('-', 12, 2), "- 12");
    assert_eq!(signed_text('-', 0, 0), "- 0");
}

#[test]
fn names_are_set_to_the_left() {
    assert_eq!(name_text("Rust", 8), "Rust    ");
    assert_eq!(name_text("Rust", 4), "Rust");
    assert_eq!(name_text("Total changes", 8), "Total changes");
    assert_eq!(name_text("", 2), "  ");
}

#[test]
fn spaces_and_rules() {
    let mut text = String::from("a");
    push_spaces(&mut text, 3);
    push_spaces(&mut text, 0);
    assert_eq!(text, "a   ");
    assert_eq!(rule_text(0), "");
    assert_eq!(rule_text(3), "\u{2500}\u{2500}\u{2500}");
}

#[test]
fn labels() {
    assert_eq!(label_text(Label::Comments), "Comments");
    assert_eq!(label_text(Label::Code(Language::CCpp)), "C/C++");
    assert_eq!(label_text(Label::Code(Language::TypeScript)), "TypeScript");
}

#[test]
fn rows_come_with_comments_first_and_languages_by_name() {
    let mut code = CodeStats::new();
    record(&mut code, Language::Unknown, stats(1, 0, 0, 0));
    record(&mut code, Language::Rust, stats(0, 1, 0, 0));
    record(&mut code, Language::TypeScript, stats(0, 0, 1, 0));
    record(&mut code, Language::CCpp, stats(0, 0, 0, 1));
    record(&mut code, Language::CMake, stats(2, 0, 0, 0));
    record(&mut code, Language::JavaScript, stats(1, 1, 1, 1));
    record(&mut code, Language::Java, stats(1, 0, 0, 0));
    let rows = report_rows(&code, &stats(0, 0, 0, 5));
    let labels: Vec<Label> = rows.iter().map(|row| row.label).collect();
    assert_eq!(
        labels,
        vec![
            Label::Comments,
            Label::Code(Language::CCpp),
            Label::Code(Language::CMake),
            Label::Code(Language::Java),
            Label::Code(Language::JavaScript),
            Label::Code(Language::Rust),
            Label::Code(Language::TypeScript),
            Label::Code(Language::Unknown),
        ]
    );
    assert_eq!(rows[0].stats, stats(0, 0, 0, 5));
    assert_eq!(rows[4].stats, stats(1, 1, 1, 1));
    let names: Vec<&str> = rows[1..].iter().map(|row| label_text(row.label)).collect();
    let mut sorted = names.clone();
    sorted.sort();
    assert_eq!(names, sorted);
}

#[test]
fn no_comments_no_comments_row() {
    let mut code = CodeStats::new();
    record(&mut code, Language::Go, stats(1, 0, 0, 0));
    let rows = report_rows(&code, &Stats::new());
    assert_eq!(rows.len(), 1);
    assert_eq!(rows[0].label, Label::Code(Language::Go));
    assert!(report_rows(&CodeStats::new(), &Stats::new()).is_empty());
}

#[test]
fn widths_are_those_of_the_longest_entries() {
    let rows = vec![
        Row { label: Label::Comments, stats: stats(5, 5, 0, 0) },
        Row { label: Label::Code(Language::Go), stats: stats(999, 1, 12345, 0) },
        Row { label: Label::Code(Language::JavaScript), stats: stats(0, 100, 0, 7) },
    ];
    let widths = column_widths(&rows);
    assert_eq!(widths.name, 10);
    assert_eq!(widths.total, 4);
    assert_eq!(widths.added, 3);
    assert_eq!(widths.removed, 3);
    assert_eq!(widths.test_total, 5);
    assert_eq!(widths.test_added, 5);
    assert_eq!(widths.test_removed, 1);
    let none = column_widths(&Vec::new());
    assert_eq!(
        (none.name, none.total, none.added, none.removed),
        (0, 0, 0, 0)
    );
    assert_eq!((none.test_total, none.test_added, none.test_removed), (0, 0, 0));
}

#[test]
fn a_row_in_its_columns() {
    let row = Row { label: Label::Code(Language::Go), stats: stats(9, 3, 10, 0) };
    let widths = Widths {
        name: 8,
        total: 3,
        added: 2,
        removed: 2,
        test_total: 2,
        test_added: 2,
        test_removed: 1,
    };
    let line = row_segments(&row, &widths);
    let text: String = line.iter().map(|segment| segment.text.as_str()).collect();
    assert_eq!(text, "Go         12 (+  9 / -  3)  |  10 (+ 10 / - 0)");
    let styles: Vec<Style> = line.iter().map(|segment| segment.style).collect();
    assert_eq!(
        styles,
        vec![
            Style::Name,
            Style::Plain,
            Style::Total,
            Style::Plain,
            Style::Added,
            Style::Plain,
            Style::Removed,
            Style::Plain,
            Style::TestTotal,
            Style::Plain,
            Style::TestAdded,
            Style::Plain,
            Style::TestRemoved,
            Style::Plain,
        ]
    );
    assert_eq!(line[4].text, "+  9");
    assert_eq!(line[12].text, "- 0");
}

#[test]
fn the_comments_name_stands_out_only_with_comments_outside_tests() {
    let widths = Widths {
        name: 8,
        total: 1,
        added: 1,
        removed: 1,
        test_total: 1,
        test_added: 1,
        test_removed: 1,
    };
    let outside = Row { label: Label::Comments, stats: stats(1, 0, 0, 0) };
    assert_eq!(row_segments(&outside, &widths)[0].style, Style::CommentsName);
    let in_tests = Row { label: Label::Comments, stats: stats(0, 0, 1, 0) };
    assert_eq!(row_segments(&in_tests, &widths)[0].style, Style::Name);
}

#[test]
fn the_sum_counts_every_change() {
    let mut code = CodeStats::new();
    record(&mut code, Language::Go, stats(1, 2, 3, 4));
    record(&mut code, Language::Rust, stats(10, 20, 30, 40));
    assert_eq!(sum_of_changes(&code, &stats(100, 200, 1000, 2000)), 3410);
    assert_eq!(sum_of_changes(&code, &Stats::new()), 110);
    assert_eq!(sum_of_changes(&CodeStats::new(), &stats(0, 0, 1, 0)), 1);
    assert_eq!(sum_of_changes(&CodeStats::new(), &Stats::new()), 0);
}

#[test]
fn report_of_one_file() {
    let diff = "diff --git a/src/main.rs b/src/main.rs\n+// comment\n+let x = 1;\n-let y = 2;\n";
    let (code, comments) = parse(diff);
    let rule = "\u{2500}".repeat(43);
    let expected = format!(
        "\nLines of Code Changes\n\n\
         Comments  1 (+ 1 / - 0)  |  0 (+ 0 / - 0)\n\
         Rust      2 (+ 1 / - 1)  |  0 (+ 0 / - 0)\n\
         \n{}\nTotal changes  3\n",
        rule
    );
    assert_eq!(render(&code, &comments), expected);
    assert_eq!(sum_of_changes(&code, &comments), 3);
}

#[test]
fn report_with_columns_of_several_digits() {
    let mut code = CodeStats::new();
    record(&mut code, Language::TypeScript, stats(120, 5, 0, 0));
    record(&mut code, Language::Go, stats(7, 0, 10, 1));
    let comments = stats(0, 3, 0, 0);
    let rule = "\u{2500}".repeat(10 + 29 + 3 + 3 + 1 + 2 + 2 + 1);
    let expected = format!(
        "\nLines of Code Changes\n\n\
         Comments      3 (+   0 / - 3)  |   0 (+  0 / - 0)\n\
         Go            7 (+   7 / - 0)  |  11 (+ 10 / - 1)\n\
         TypeScript  125 (+ 120 / - 5)  |   0 (+  0 / - 0)\n\
         \n{}\nTotal changes  146\n",
        rule
    );
    assert_eq!(render(&code, &comments), expected);
}

#[test]
fn report_of_nothing_is_the_title_alone() {
    let text = render(&CodeStats::new(), &Stats::new());
    assert_eq!(text, "\nLines of Code Changes\n\n");
    let lines = layout(&CodeStats::new(), &Stats::new());
    assert_eq!(lines.len(), 3);
    assert!(lines[0].is_empty());
    assert_eq!(lines[1].len(), 1);
    assert_eq!(lines[1][0].style, Style::Title);
    assert_eq!(lines[1][0].text, "Lines of Code Changes");
    assert!(lines[2].is_empty());
}

#[test]
fn report_of_test_comments_alone() {
    let text = render(&CodeStats::new(), &stats(0, 0, 2, 0));
    let rule = "\u{2500}".repeat(8 + 29 + 6);
    let expected = format!(
        "\nLines of Code Changes\n\n\
         Comments  0 (+ 0 / - 0)  |  2 (+ 2 / - 0)\n\
         \n{}\nTotal changes  2\n",
        rule
    );
    assert_eq!(text, expected);
    let (code, comments) = parse("diff --git a/tests/foo.py b/tests/foo.py\n+# a comment\n");
    let lines = layout(&code, &comments);
    assert_eq!(lines.len(), 7);
    assert_eq!(lines[6][2].text, "1");
}

#[test]
fn rendering_twice_gives_the_same_text() {
    let diff = "diff --git a/a.rs b/a.rs\n+let x = 1;\n+// c\n\
                diff --git a/tests/b.py b/tests/b.py\n-x = 1\n";
    let (code, comments) = parse(diff);
    let first = render(&code, &comments);
    let second = render(&code, &comments);
    assert_eq!(first, second);
    assert_eq!(code.get(Language::Rust), Some(stats(1, 0, 0, 0)));
    assert_eq!(code.get(Language::Python), Some(stats(0, 0, 0, 1)));
    assert_eq!(comments, stats(1, 0, 0, 0));
}

#[test]
fn the_sum_line_adds_up_the_rows() {
    let diff = "diff --git a/a.rs b/a.rs\n+let x = 1;\n+// c\n-let y;\n\
                diff --git a/tests/b.py b/tests/b.py\n-x = 1\n+# c\n\
                diff --git a/c.go b/c.go\n+x := 1\n";
    let (code, comments) = parse(diff);
    let mut production: u128 = 0;
    let mut tests: u128 = 0;
    for place in 0..14 {
        if let Some(counts) = code.get(Language::ranked(place).unwrap()) {
            production += counts.total();
            tests += counts.test_total();
        }
    }
    assert_eq!(production, 3);
    assert_eq!(tests, 1);
    assert_eq!(comments.total(), 1);
    assert_eq!(comments.test_total(), 1);
    let lines = layout(&code, &comments);
    let last = lines.last().unwrap();
    assert_eq!(last.len(), 3);
    assert_eq!(last[0].style, Style::SumName);
    assert_eq!(last[0].text, "Total changes");
    assert_eq!(last[2].style, Style::Sum);
    let all_comments = comments.total() + comments.test_total();
    assert_eq!(last[2].text, (production + tests + all_comments).to_string());
    assert_eq!(last[2].text, "6");
}

#[test]
fn the_text_is_the_pieces_and_a_line_feed_for_each_line() {
    let diff = "diff --git a/a.rs b/a.rs\n+let x = 1;\n";
    let (code, comments) = parse(diff);
    let lines = layout(&code, &comments);
    assert_eq!(lines.len(), 7);
    let mut joined = String::new();
    for line in &lines {
        for segment in line {
            joined.push_str(&segment.text);
        }
        joined.push('\n');
    }
    assert_eq!(plain_text(&lines), joined);
    assert_eq!(render(&code, &comments), joined);
    assert_eq!(lines[5].len(), 1);
    assert_eq!(lines[5][0].style, Style::Rule);
    assert_eq!(lines[5][0].text.chars().count(), 4 + 29 + 6);
    assert_eq!(plain_text(&Vec::new()), "");
}
