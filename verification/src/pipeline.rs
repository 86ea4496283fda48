use vstd::prelude::*;

use crate::aggregate::{
    count, count_filtered_habit, count_filtered_time, count_habit, date_filtered, filter_by_time,
    habit_filtered, sorted_by_date, time_filtered, window7,
};
use crate::date::{valid_date, Date};
use crate::entry::{HabitFilter, JournalEntry, TimeFilter};
use crate::frontmatter::{extract_frontmatter, is_marker, lemma_unclosed_marker_yields_none, spec_extract};
use crate::report::{spec_report, spec_report_filtered, HabitCount};
use crate::sort::sort_entries;
use crate::text::spec_lines;
use crate::yaml::{decode_block, spec_decode};

verus! {

/// Every entry carries a valid calendar date.
pub open spec fn all_dates_valid(s: Seq<JournalEntry>) -> bool {
    forall|k: int| 0 <= k < s.len() ==> valid_date(#[trigger] s[k].date)
}

/// The tally of the given entries under the optional filters: the time
/// filter first, then the habit filter, then the seven-entry cap, then the
/// fold of the flags.
pub open spec fn spec_tally(
    s: Seq<JournalEntry>,
    habit: Option<HabitFilter>,
    time: Option<TimeFilter>,
    today: Date,
) -> HabitCount {
    let after_time = match time {
        Some(tf) => time_filtered(s, tf, today),
        None => s,
    };
    let after_habit = match habit {
        Some(hf) => habit_filtered(after_time, hf),
        None => after_time,
    };
    let win = window7(after_habit);
    HabitCount {
        exercise: count_habit(win, HabitFilter::Exercise) as usize,
        reading: count_habit(win, HabitFilter::Reading) as usize,
        contribution: count_habit(win, HabitFilter::Contribution) as usize,
    }
}

/// The report printed for the given (already sorted) entries: the single
/// filtered habit's line when a habit filter is active, all three lines
/// otherwise.
pub open spec fn spec_output(
    s: Seq<JournalEntry>,
    habit: Option<HabitFilter>,
    time: Option<TimeFilter>,
    today: Date,
) -> Seq<u8> {
    let c = spec_tally(s, habit, time, today);
    match habit {
        Some(hf) => spec_report_filtered(c, hf),
        None => spec_report(c),
    }
}

/// `b` is the stable date sort of `a`: ascending by date, and for every
/// date the entries bearing it keep their order in `a`.
pub open spec fn is_stable_date_sort(a: Seq<JournalEntry>, b: Seq<JournalEntry>) -> bool {
    &&& b.len() == a.len()
    &&& sorted_by_date(b)
    &&& forall|d: Date| date_filtered(b, d) == date_filtered(a, d)
}

/// The output is the report of the decoded entries: their stable date
/// sort, filtered and capped, rendered.
pub open spec fn report_of_entries(
    entries: Seq<JournalEntry>,
    habit: Option<HabitFilter>,
    time: Option<TimeFilter>,
    today: Date,
    out: Seq<u8>,
) -> bool {
    exists|s: Seq<JournalEntry>|
        is_stable_date_sort(entries, s) && out == spec_output(s, habit, time, today)
}

/// The views of a list of file texts.
pub open spec fn file_views(files: Seq<Vec<u8>>) -> Seq<Seq<u8>> {
    files.map_values(|f: Vec<u8>| f@)
}

/// The entry one file text yields: its frontmatter block decoded, or
/// nothing when the text holds no block.
pub open spec fn spec_file_entry(t: Seq<u8>) -> Option<JournalEntry> {
    match spec_extract(t) {
        None => None,
        Some(b) => spec_decode(b),
    }
}

/// The entries a list of file texts decodes to: in file order, at most
/// one per file, skipping every file without a well-formed, fully typed
/// block.
pub open spec fn spec_decoded(files: Seq<Seq<u8>>) -> Seq<JournalEntry>
    decreases files.len(),
{
    if files.len() == 0 {
        Seq::empty()
    } else {
        spec_decoded(files.drop_last()) + (match spec_file_entry(files.last()) {
            Some(e) => seq![e],
            None => Seq::empty(),
        })
    }
}

/// A file that never closes a delimiter marker — no two marker lines in
/// its text — contributes no entry: in particular one with a lone opening
/// marker, and one with no marker at all.
pub proof fn lemma_unclosed_file_contributes_nothing(t: Seq<u8>)
    requires
        forall|i: int, j: int|
            0 <= i < j < spec_lines(t).len() ==> !(is_marker(spec_lines(t)[i]) && is_marker(
                spec_lines(t)[j],
            )),
    ensures
        spec_file_entry(t) is None,
{
    lemma_unclosed_marker_yields_none(t);
}

/// Decodes each file's frontmatter into an entry, in file order, at most
/// one entry per file; files without a well-formed, fully typed block are
/// dropped in silence while every other file still contributes.
pub fn parse_frontmatter(files: Vec<Vec<u8>>) -> (r: Vec<JournalEntry>)
    ensures
        r@ == spec_decoded(file_views(files@)),
        all_dates_valid(r@),
        r@.len() <= files@.len(),
{
    let ghost fv = file_views(files@);
    let mut out: Vec<JournalEntry> = Vec::new();
    let mut i: usize = 0;
    while i < files.len()
        invariant
            i <= files@.len(),
            fv == file_views(files@),
            fv.len() == files@.len(),
            out@ == spec_decoded(fv.take(i as int)),
            all_dates_valid(out@),
            out@.len() <= i,
        decreases files@.len() - i,
    {
        let ghost out_before = out@;
        proof {
            assert(fv[i as int] == files@[i as int]@);
        }
        match extract_frontmatter(files[i].as_slice()) {
            Some(block) => {
                match decode_block(block.as_slice()) {
                    Some(e) => {
                        proof {
                            assert(spec_file_entry(fv[i as int]) == Some(e));
                        }
                        out.push(e);
                    },
                    None => {
                        proof {
                            assert(spec_file_entry(fv[i as int]) is None);
                        }
                    },
                }
            },
            None => {
                proof {
                    assert(spec_file_entry(fv[i as int]) is None);
                }
            },
        }
        proof {
            let prefix = fv.take(i + 1);
            assert(prefix.drop_last() =~= fv.take(i as int));
            assert(prefix.last() == fv[i as int]);
            match spec_file_entry(fv[i as int]) {
                Some(e) => {
                    assert(out@ =~= out_before + seq![e]);
                },
                None => {
                    assert(out@ =~= out_before + Seq::<JournalEntry>::empty());
                },
            }
        }
        i += 1;
    }
    proof {
        assert(fv.take(i as int) =~= fv);
    }
    out
}

/// Sorts the decoded entries by date and renders the tally under the
/// optional habit and time filters, exactly as `report_of_entries` states.
pub fn run_entries(
    entries: Vec<JournalEntry>,
    habit: Option<HabitFilter>,
    time: Option<TimeFilter>,
    today: Date,
) -> (r: Vec<u8>)
    requires
        valid_date(today),
        all_dates_valid(entries@),
    ensures
        report_of_entries(entries@, habit, time, today, r@),
{
    let ghost orig = entries@;
    let sorted = sort_entries(entries);
    let ghost ssorted = sorted@;
    proof {
        assert forall|k: int| 0 <= k < ssorted.len() implies valid_date(
            (#[trigger] ssorted[k]).date,
        ) by {
            assert(orig.contains(ssorted[k]));
            let m = choose|m: int| 0 <= m < orig.len() && orig[m] == ssorted[k];
            assert(valid_date(orig[m].date));
        }
        assert(is_stable_date_sort(orig, ssorted));
    }
    match (habit, time) {
        (Some(hf), None) => {
            let c = count_filtered_habit(sorted, hf);
            let out = c.render_filtered(hf);
            proof {
                assert(out@ == spec_output(ssorted, habit, time, today));
            }
            out
        },
        (None, None) => {
            let c = count(sorted);
            let out = c.render();
            proof {
                assert(out@ == spec_output(ssorted, habit, time, today));
            }
            out
        },
        (None, Some(tf)) => {
            let c = count_filtered_time(sorted, tf, today);
            let out = c.render();
            proof {
                assert(out@ == spec_output(ssorted, habit, time, today));
            }
            out
        },
        (Some(hf), Some(tf)) => {
            let within = filter_by_time(sorted, tf, today);
            let c = count_filtered_habit(within, hf);
            let out = c.render_filtered(hf);
            proof {
                assert(out@ == spec_output(ssorted, habit, time, today));
            }
            out
        },
    }
}

/// The whole pipeline on in-memory file texts: extracts and decodes each
/// file's frontmatter, drops what fails in silence, sorts the entries by
/// date, applies the optional filters with the seven-entry cap, and
/// renders the report — exactly the report of the list the files decode
/// to.
pub fn run(
    files: Vec<Vec<u8>>,
    habit: Option<HabitFilter>,
    time: Option<TimeFilter>,
    today: Date,
) -> (r: Vec<u8>)
    requires
        valid_date(today),
    ensures
        report_of_entries(spec_decoded(file_views(files@)), habit, time, today, r@),
{
    let entries = parse_frontmatter(files);
    run_entries(entries, habit, time, today)
}

} // verus!
