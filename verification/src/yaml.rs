use vstd::prelude::*;

use crate::date::{spec_parse_date, valid_date};
use crate::entry::{entry_from_fields, Habits, JournalEntry};

verus! {

/// What the YAML reader yields for a frontmatter block under the journal
/// schema: the `title` string, the `date` text, and the `habits` flags
/// for exercise, the seven-letter "contrib" key, and reading — or nothing
/// when the block is not a YAML mapping holding all of them with these
/// types. The parse and the fixed-key lookups depend on the block bytes
/// alone, so the result is a function of them.
pub uninterp spec fn yaml_fields_of(b: Seq<u8>) -> Option<(String, Vec<u8>, bool, bool, bool)>;

/// Relies on serde_yaml to read a frontmatter block under the fixed
/// journal schema: `from_slice` parses the bytes into a `Value`;
/// `Value::get` looks up `title`, `date` and `habits`, and the three flag
/// keys within `habits`; `Value::as_str` and `Value::as_bool` read the
/// typed fields, each `None` on a missing key or a wrong type. Every step
/// is a function of the block bytes alone, so the chain's result carries
/// the name `yaml_fields_of`.
#[verifier::external_body]
fn read_block_fields(block: &[u8]) -> (r: Option<(String, Vec<u8>, bool, bool, bool)>)
    ensures
        r == yaml_fields_of(block@),
{
    let doc = serde_yaml::from_slice::<serde_yaml::Value>(block).ok()?;
    let title = doc.get("title")?.as_str()?.to_owned();
    let date = doc.get("date")?.as_str()?.as_bytes().to_vec();
    let habits = doc.get("habits")?;
    let exercise = habits.get("exercise")?.as_bool()?;
    let contribution = habits.get("contrib")?.as_bool()?;
    let reading = habits.get("reading")?.as_bool()?;
    Some((title, date, exercise, contribution, reading))
}

/// The entry a frontmatter block decodes to: exactly the fields the YAML
/// reader yields, provided the date text is an ISO calendar day; nothing
/// when a field is missing or ill typed, or the date does not exist in
/// the calendar.
pub open spec fn spec_decode(b: Seq<u8>) -> Option<JournalEntry> {
    match yaml_fields_of(b) {
        None => None,
        Some(f) => match spec_parse_date(f.1@) {
            None => None,
            Some(d) => Some(
                JournalEntry {
                    title: f.0,
                    date: d,
                    habits: Habits { exercise: f.2, contribution: f.3, reading: f.4 },
                },
            ),
        },
    }
}

/// Decodes a frontmatter block: the text must be a YAML mapping with a
/// string `title`, a `date` holding an ISO calendar day, and a `habits`
/// mapping with the three boolean flags. On any missing field, wrong type
/// or malformed date there is no entry — the file is dropped in silence.
/// A produced entry holds exactly the decoded field values, and a valid
/// calendar date.
pub fn decode_block(block: &[u8]) -> (r: Option<JournalEntry>)
    ensures
        r == spec_decode(block@),
        r matches Some(e) ==> valid_date(e.date),
{
    match read_block_fields(block) {
        Some((title, date_text, exercise, contribution, reading)) => entry_from_fields(
            title,
            date_text.as_slice(),
            exercise,
            contribution,
            reading,
        ),
        None => None,
    }
}

} // verus!
