use vstd::prelude::*;

use crate::date::{spec_parse_date, valid_date, parse_date, Date};

verus! {

/// The three independent habit flags of one journal entry.
#[derive(Clone, Copy, PartialEq, Eq, Structural, Debug)]
pub struct Habits {
    pub exercise: bool,
    pub contribution: bool,
    pub reading: bool,
}

/// One decoded journal entry: a markdown file's frontmatter gave a title,
/// a calendar date and the three habit flags.
pub struct JournalEntry {
    pub title: String,
    pub date: Date,
    pub habits: Habits,
}

/// Selects one habit to filter and report on.
#[derive(Clone, Copy, PartialEq, Eq, Structural, Debug)]
pub enum HabitFilter {
    Exercise,
    Contribution,
    Reading,
}

/// Selects the calendar period around "today" to filter on.
#[derive(Clone, Copy, PartialEq, Eq, Structural, Debug)]
pub enum TimeFilter {
    Week,
    Month,
    Day,
    Year,
}

/// Builds an entry from the three required frontmatter fields, once each is
/// present with the right type. The date text must be an ISO `YYYY-MM-DD`
/// day that exists in the calendar; otherwise no entry is produced. A
/// produced entry holds exactly the given field values.
pub fn entry_from_fields(
    title: String,
    date_text: &[u8],
    exercise: bool,
    contribution: bool,
    reading: bool,
) -> (r: Option<JournalEntry>)
    ensures
        (match spec_parse_date(date_text@) {
            Some(d) => r matches Some(e) && e == (JournalEntry {
                title: title,
                date: d,
                habits: Habits { exercise, contribution, reading },
            }),
            None => r is None,
        }),
        r matches Some(e) ==> valid_date(e.date),
{
    match parse_date(date_text) {
        Some(d) => Some(
            JournalEntry { title, date: d, habits: Habits { exercise, contribution, reading } },
        ),
        None => None,
    }
}

} // verus!
