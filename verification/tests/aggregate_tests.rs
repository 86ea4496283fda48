use ribbit::aggregate::{count, count_filtered_habit, count_filtered_time, filter_by_time};
use ribbit::date::Date;
use ribbit::entry::{HabitFilter, Habits, JournalEntry, TimeFilter};
use ribbit::sort::sort_entries;

fn entry(title: &str, y: i32, m: u8, d: u8, ex: bool, co: bool, re: bool) -> JournalEntry {
    JournalEntry {
        title: title.to_string(),
        date: Date { year: y, month: m, day: d },
        habits: Habits { exercise: ex, contribution: co, reading: re },
    }
}

#[test]
fn sort_orders_by_date_and_keeps_ties_in_discovery_order() {
    let entries = vec![
        entry("later", 2024, 1, 2, true, false, false),
        entry("first", 2024, 1, 1, false, true, false),
        entry("tied with later", 2024, 1, 2, false, false, true),
        entry("earliest", 2023, 12, 31, true, true, true),
    ];
    let sorted = sort_entries(entries);
    let titles: Vec<&str> = sorted.iter().map(|e| e.title.as_str()).collect();
    assert_eq!(titles, vec!["earliest", "first", "later", "tied with later"]);
}

#[test]
fn month_filter_matches_entries_from_any_year() {
    let today = Date { year: 2024, month: 3, day: 15 };
    let entries = vec![
        entry("old march", 2019, 3, 1, true, false, false),
        entry("april", 2024, 4, 1, true, false, false),
        entry("this march", 2024, 3, 2, true, false, false),
    ];
    let kept = filter_by_time(entries, TimeFilter::Month, today);
    let titles: Vec<&str> = kept.iter().map(|e| e.title.as_str()).collect();
    assert_eq!(titles, vec!["old march", "this march"]);
}

#[test]
fn week_filter_requires_week_number_and_week_year() {
    // 2020-01-01 lies in ISO week 1 of week-year 2020. So does 2019-12-31,
    // though its calendar year differs. 2019-01-01 lies in ISO week 1 too,
    // but of week-year 2019, and must not match.
    let today = Date { year: 2020, month: 1, day: 1 };
    let entries = vec![
        entry("same iso week", 2019, 12, 31, true, false, false),
        entry("same week number only", 2019, 1, 1, true, false, false),
    ];
    let kept = filter_by_time(entries, TimeFilter::Week, today);
    let titles: Vec<&str> = kept.iter().map(|e| e.title.as_str()).collect();
    assert_eq!(titles, vec!["same iso week"]);
}

#[test]
fn day_filter_matches_the_exact_date_only() {
    let today = Date { year: 2024, month: 5, day: 6 };
    let entries = vec![
        entry("that day", 2024, 5, 6, true, false, false),
        entry("day before", 2024, 5, 5, true, false, false),
        entry("same day other year", 2023, 5, 6, true, false, false),
    ];
    let kept = filter_by_time(entries, TimeFilter::Day, today);
    let titles: Vec<&str> = kept.iter().map(|e| e.title.as_str()).collect();
    assert_eq!(titles, vec!["that day"]);
}

#[test]
fn year_filter_matches_the_calendar_year() {
    let today = Date { year: 2024, month: 5, day: 6 };
    let entries = vec![
        entry("january", 2024, 1, 1, true, false, false),
        entry("last year", 2023, 5, 6, true, false, false),
    ];
    let kept = filter_by_time(entries, TimeFilter::Year, today);
    let titles: Vec<&str> = kept.iter().map(|e| e.title.as_str()).collect();
    assert_eq!(titles, vec!["january"]);
}

#[test]
fn tally_caps_at_seven_entries() {
    let mut entries = Vec::new();
    for d in 1..=10 {
        entries.push(entry("day", 2024, 1, d, true, true, false));
    }
    let c = count(entries);
    assert_eq!(c.exercise, 7);
    assert_eq!(c.contribution, 7);
    assert_eq!(c.reading, 0);
}

#[test]
fn tally_counts_each_entry_at_most_once_per_counter() {
    let entries = vec![
        entry("a", 2024, 1, 1, true, true, true),
        entry("b", 2024, 1, 2, true, false, false),
        entry("c", 2024, 1, 3, false, false, false),
    ];
    let c = count(entries);
    assert_eq!(c.exercise, 2);
    assert_eq!(c.contribution, 1);
    assert_eq!(c.reading, 1);
}

#[test]
fn habit_filter_counts_only_matching_entries() {
    let entries = vec![
        entry("a", 2024, 1, 1, true, true, false),
        entry("b", 2024, 1, 2, false, true, true),
        entry("c", 2024, 1, 3, false, false, true),
        entry("d", 2024, 1, 4, false, true, false),
        entry("e", 2024, 1, 5, true, false, false),
    ];
    let c = count_filtered_habit(entries, HabitFilter::Contribution);
    assert_eq!(c.contribution, 3);
    assert_eq!(c.exercise, 1);
    assert_eq!(c.reading, 1);
}

#[test]
fn habit_filter_caps_after_filtering() {
    let mut entries = Vec::new();
    for d in 1..=9 {
        entries.push(entry("on", 2024, 2, d, true, false, d % 2 == 0));
    }
    let c = count_filtered_habit(entries, HabitFilter::Exercise);
    assert_eq!(c.exercise, 7);
    assert_eq!(c.reading, 3);
}

#[test]
fn time_filter_then_count_uses_only_entries_in_period() {
    let today = Date { year: 2024, month: 6, day: 1 };
    let entries = vec![
        entry("in year", 2024, 2, 1, true, false, true),
        entry("out of year", 2023, 6, 1, true, true, true),
        entry("also in year", 2024, 6, 2, false, true, true),
    ];
    let c = count_filtered_time(entries, TimeFilter::Year, today);
    assert_eq!(c.exercise, 1);
    assert_eq!(c.contribution, 1);
    assert_eq!(c.reading, 2);
}
