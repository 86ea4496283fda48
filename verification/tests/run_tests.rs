use ribbit::date::Date;
use ribbit::entry::{HabitFilter, Habits, JournalEntry, TimeFilter};
use ribbit::pipeline::{parse_frontmatter, run, run_entries};
use ribbit::report::HabitCount;

fn journal_file(title: &str, date: &str, ex: bool, co: bool, re: bool) -> Vec<u8> {
    format!(
        "---\ntitle: {}\ndate: {}\nhabits:\n  exercise: {}\n  contrib: {}\n  reading: {}\n---\nBody.\n",
        title, date, ex, co, re
    )
    .into_bytes()
}

fn any_day() -> Date {
    Date { year: 2024, month: 6, day: 15 }
}

#[test]
fn end_to_end_counts_only_files_with_complete_frontmatter() {
    let files = vec![
        journal_file("a", "2024-01-10", true, false, true),
        b"no frontmatter here\njust text\n".to_vec(),
        b"---\ntitle: c\nhabits:\n  exercise: true\n  contrib: true\n  reading: true\n---\n"
            .to_vec(),
    ];
    let out = run(files, None, None, any_day());
    assert_eq!(String::from_utf8(out).unwrap(), "   1 - exercise\n   0 - contrib\n   1 - reading\n");
}

#[test]
fn end_to_end_habit_filter_prints_one_line() {
    let files = vec![
        journal_file("a", "2024-01-01", true, true, false),
        journal_file("b", "2024-01-02", false, true, true),
        journal_file("c", "2024-01-03", false, false, true),
        journal_file("d", "2024-01-04", false, true, false),
        journal_file("e", "2024-01-05", true, false, false),
    ];
    let out = run(files, Some(HabitFilter::Contribution), None, any_day());
    assert_eq!(String::from_utf8(out).unwrap(), "   3 - contrib\n");
}

#[test]
fn end_to_end_time_and_habit_filters_combine() {
    let today = Date { year: 2024, month: 3, day: 20 };
    let files = vec![
        journal_file("march exercise", "2024-03-01", true, false, false),
        journal_file("march rest", "2024-03-02", false, true, true),
        journal_file("old march exercise", "2019-03-05", true, true, false),
        journal_file("april exercise", "2024-04-01", true, false, false),
    ];
    let out = run(files, Some(HabitFilter::Exercise), Some(TimeFilter::Month), today);
    assert_eq!(String::from_utf8(out).unwrap(), "   2 - exercise\n");
}

#[test]
fn end_to_end_time_filter_alone_prints_three_lines() {
    let today = Date { year: 2024, month: 1, day: 2 };
    let files = vec![
        journal_file("that day", "2024-01-02", true, false, true),
        journal_file("other day", "2024-01-03", true, true, true),
    ];
    let out = run(files, None, Some(TimeFilter::Day), today);
    assert_eq!(String::from_utf8(out).unwrap(), "   1 - exercise\n   0 - contrib\n   1 - reading\n");
}

#[test]
fn run_entries_caps_the_unfiltered_tally_at_seven_most_recent_by_sort() {
    // Ten entries, dates ascending; the cap keeps the first seven after the
    // sort, so the three latest dates fall out.
    let mut entries = Vec::new();
    for d in (1..=10).rev() {
        entries.push(JournalEntry {
            title: format!("day {}", d),
            date: Date { year: 2024, month: 1, day: d },
            habits: Habits { exercise: true, contribution: d >= 8, reading: false },
        });
    }
    let out = run_entries(entries, None, None, any_day());
    assert_eq!(String::from_utf8(out).unwrap(), "   7 - exercise\n   0 - contrib\n   0 - reading\n");
}

#[test]
fn end_to_end_zero_files_prints_zero_counts() {
    let out = run(Vec::new(), None, None, any_day());
    assert_eq!(String::from_utf8(out).unwrap(), "   0 - exercise\n   0 - contrib\n   0 - reading\n");
}

#[test]
fn parse_frontmatter_drops_file_with_unclosed_marker() {
    let files = vec![b"---\ntitle: t\ndate: 2024-01-10\n".to_vec()];
    let entries = parse_frontmatter(files);
    assert!(entries.is_empty());
}

#[test]
fn parse_frontmatter_keeps_discovery_order_and_drops_failures() {
    let files = vec![
        journal_file("b", "2024-01-02", true, false, false),
        b"plain note\n".to_vec(),
        journal_file("a", "2024-01-01", false, true, false),
    ];
    let entries = parse_frontmatter(files);
    let titles: Vec<&str> = entries.iter().map(|e| e.title.as_str()).collect();
    assert_eq!(titles, vec!["b", "a"]);
}

#[test]
fn render_right_aligns_counts_to_four_columns() {
    let c = HabitCount { exercise: 0, reading: 12, contribution: 3 };
    let out = c.render();
    assert_eq!(String::from_utf8(out).unwrap(), "   0 - exercise\n   3 - contrib\n  12 - reading\n");
}

#[test]
fn render_filtered_prints_the_selected_habit_only() {
    let c = HabitCount { exercise: 5, reading: 2, contribution: 0 };
    let out = c.render_filtered(HabitFilter::Reading);
    assert_eq!(String::from_utf8(out).unwrap(), "   2 - reading\n");
}
