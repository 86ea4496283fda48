use ribbit::date::{parse_date, Date};
use ribbit::frontmatter::extract_frontmatter;
use ribbit::yaml::decode_block;

fn well_formed_block(date: &str, exercise: bool, second: bool, reading: bool) -> String {
    format!(
        "title: A day\ndate: {}\nhabits:\n  exercise: {}\n  contrib: {}\n  reading: {}\n",
        date, exercise, second, reading
    )
}

#[test]
fn extractor_returns_none_without_closing_marker() {
    let text = b"---\ntitle: open forever\ndate: 2024-01-10\n";
    assert!(extract_frontmatter(text).is_none());
}

#[test]
fn extractor_returns_none_without_any_marker() {
    let text = b"just a note\nwith two lines\n";
    assert!(extract_frontmatter(text).is_none());
}

#[test]
fn extractor_returns_block_between_first_pair() {
    let text = b"---\ntitle: t\ndate: 2024-01-10\n---\nbody text\n";
    let block = extract_frontmatter(text).unwrap();
    assert_eq!(block, b"title: t\ndate: 2024-01-10".to_vec());
}

#[test]
fn extractor_takes_first_pair_when_more_markers_follow() {
    let text = b"---\na: 1\n---\nmiddle\n---\nb: 2\n---\n";
    let block = extract_frontmatter(text).unwrap();
    assert_eq!(block, b"a: 1".to_vec());
}

#[test]
fn extractor_strips_carriage_returns() {
    let text = b"---\r\ntitle: t\r\n---\r\n";
    let block = extract_frontmatter(text).unwrap();
    assert_eq!(block, b"title: t".to_vec());
}

#[test]
fn extractor_yields_empty_block_for_adjacent_markers() {
    let text = b"---\n---\nrest\n";
    let block = extract_frontmatter(text).unwrap();
    assert_eq!(block, Vec::<u8>::new());
}

#[test]
fn extractor_markers_need_not_open_the_file() {
    let text = b"intro line\n---\ntitle: t\n---\n";
    let block = extract_frontmatter(text).unwrap();
    assert_eq!(block, b"title: t".to_vec());
}

#[test]
fn decoder_produces_entry_with_exact_field_values() {
    let block = well_formed_block("2024-01-10", true, false, true);
    let e = decode_block(block.as_bytes()).unwrap();
    assert_eq!(e.title, "A day");
    assert_eq!(e.date, Date { year: 2024, month: 1, day: 10 });
    assert!(e.habits.exercise);
    assert!(!e.habits.contribution);
    assert!(e.habits.reading);
}

#[test]
fn decoder_drops_block_missing_date() {
    let text = "title: t\nhabits:\n  exercise: true\n  contrib: true\n  reading: true\n";
    assert!(decode_block(text.as_bytes()).is_none());
}

#[test]
fn decoder_drops_block_missing_title() {
    let text = "date: 2024-01-10\nhabits:\n  exercise: true\n  contrib: true\n  reading: true\n";
    assert!(decode_block(text.as_bytes()).is_none());
}

#[test]
fn decoder_drops_block_missing_one_habit_flag() {
    let text = "title: t\ndate: 2024-01-10\nhabits:\n  exercise: true\n  reading: true\n";
    assert!(decode_block(text.as_bytes()).is_none());
}

#[test]
fn decoder_drops_non_boolean_habit_flag() {
    let block = well_formed_block("2024-01-10", true, false, true).replace("true", "yes indeed");
    assert!(decode_block(block.as_bytes()).is_none());
}

#[test]
fn decoder_drops_numeric_title() {
    let text =
        "title: 123\ndate: 2024-01-10\nhabits:\n  exercise: true\n  contrib: true\n  reading: true\n";
    assert!(decode_block(text.as_bytes()).is_none());
}

#[test]
fn decoder_drops_month_thirteen() {
    let block = well_formed_block("2024-13-01", true, true, true);
    assert!(decode_block(block.as_bytes()).is_none());
}

#[test]
fn decoder_drops_february_twenty_ninth_off_leap_years() {
    let block = well_formed_block("2023-02-29", true, true, true);
    assert!(decode_block(block.as_bytes()).is_none());
}

#[test]
fn decoder_accepts_february_twenty_ninth_on_leap_years() {
    let block = well_formed_block("2024-02-29", true, true, true);
    let e = decode_block(block.as_bytes()).unwrap();
    assert_eq!(e.date, Date { year: 2024, month: 2, day: 29 });
}

#[test]
fn decoder_drops_malformed_yaml() {
    let text = "title: [unclosed\ndate: 2024-01-10\n";
    assert!(decode_block(text.as_bytes()).is_none());
}

#[test]
fn parse_date_reads_iso_dates_exactly() {
    assert_eq!(parse_date(b"2024-01-10"), Some(Date { year: 2024, month: 1, day: 10 }));
    assert_eq!(parse_date(b"0001-12-31"), Some(Date { year: 1, month: 12, day: 31 }));
    assert_eq!(parse_date(b"2024-1-10"), None);
    assert_eq!(parse_date(b"2024-02-30"), None);
    assert_eq!(parse_date(b"2024-00-10"), None);
    assert_eq!(parse_date(b"2024-01-00"), None);
    assert_eq!(parse_date(b"24-01-10"), None);
    assert_eq!(parse_date(b"2024/01/10"), None);
}
