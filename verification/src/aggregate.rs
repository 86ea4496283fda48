use vstd::prelude::*;

use crate::date::{date_le, iso_week_of, iso_week_nums, valid_date, Date};
use crate::entry::{HabitFilter, JournalEntry, TimeFilter};
use crate::report::HabitCount;

verus! {

/// True when the entry's flag for the selected habit is set.
pub open spec fn habit_matches(e: JournalEntry, f: HabitFilter) -> bool {
    match f {
        HabitFilter::Exercise => e.habits.exercise,
        HabitFilter::Contribution => e.habits.contribution,
        HabitFilter::Reading => e.habits.reading,
    }
}

/// Two dates fall in the same ISO week: the full (week-year, week number)
/// pair agrees.
pub open spec fn same_iso_week(a: Date, b: Date) -> bool {
    iso_week_of(a.year as int, a.month as int, a.day as int) == iso_week_of(
        b.year as int,
        b.month as int,
        b.day as int,
    )
}

/// True when the entry's date falls in the same calendar period as
/// `today`. Day compares the whole date; Week compares the full ISO
/// (week-year, week) pair; Month compares the month number alone, whatever
/// the year; Year compares the year.
pub open spec fn time_matches(e: JournalEntry, f: TimeFilter, today: Date) -> bool {
    match f {
        TimeFilter::Day => e.date == today,
        TimeFilter::Week => same_iso_week(e.date, today),
        TimeFilter::Month => e.date.month == today.month,
        TimeFilter::Year => e.date.year == today.year,
    }
}

/// The subsequence of entries whose date matches the time filter, in
/// order.
pub open spec fn time_filtered(s: Seq<JournalEntry>, f: TimeFilter, today: Date) -> Seq<
    JournalEntry,
>
    decreases s.len(),
{
    if s.len() == 0 {
        Seq::empty()
    } else {
        time_filtered(s.drop_last(), f, today) + (if time_matches(s.last(), f, today) {
            seq![s.last()]
        } else {
            Seq::empty()
        })
    }
}

/// The subsequence of entries whose selected habit flag is set, in order.
pub open spec fn habit_filtered(s: Seq<JournalEntry>, f: HabitFilter) -> Seq<JournalEntry>
    decreases s.len(),
{
    if s.len() == 0 {
        Seq::empty()
    } else {
        habit_filtered(s.drop_last(), f) + (if habit_matches(s.last(), f) {
            seq![s.last()]
        } else {
            Seq::empty()
        })
    }
}

/// The subsequence of entries dated exactly `d`, in order.
pub open spec fn date_filtered(s: Seq<JournalEntry>, d: Date) -> Seq<JournalEntry>
    decreases s.len(),
{
    if s.len() == 0 {
        Seq::empty()
    } else {
        date_filtered(s.drop_last(), d) + (if s.last().date == d {
            seq![s.last()]
        } else {
            Seq::empty()
        })
    }
}

/// How many of the entries have the selected habit flag set.
pub open spec fn count_habit(s: Seq<JournalEntry>, f: HabitFilter) -> int
    decreases s.len(),
{
    if s.len() == 0 {
        0
    } else {
        count_habit(s.drop_last(), f) + (if habit_matches(s.last(), f) {
            1int
        } else {
            0int
        })
    }
}

/// The tally window: the first seven entries, or all of them when fewer
/// remain.
pub open spec fn window7(s: Seq<JournalEntry>) -> Seq<JournalEntry> {
    if s.len() <= 7 {
        s
    } else {
        s.take(7)
    }
}

/// Ascending by date; entries of equal date may stand in any order here.
pub open spec fn sorted_by_date(s: Seq<JournalEntry>) -> bool {
    forall|i: int, j: int| 0 <= i < j < s.len() ==> date_le(s[i].date, s[j].date)
}

/// Each folded entry raises a counter by at most one: over any entries,
/// every habit counter is bounded by the number of entries folded.
pub proof fn lemma_each_entry_counts_at_most_once(s: Seq<JournalEntry>, f: HabitFilter)
    ensures
        0 <= count_habit(s, f) <= s.len(),
    decreases s.len(),
{
    if s.len() > 0 {
        lemma_each_entry_counts_at_most_once(s.drop_last(), f);
    }
}

/// The month filter is year-blind: two "today"s sharing the month number
/// admit exactly the same entries, whatever their years.
pub proof fn lemma_month_filter_ignores_year(e: JournalEntry, t1: Date, t2: Date)
    requires
        t1.month == t2.month,
    ensures
        time_matches(e, TimeFilter::Month, t1) == time_matches(e, TimeFilter::Month, t2),
{
}

/// The week filter demands the full ISO pair: an equal week number with a
/// different week-year does not match.
pub proof fn lemma_week_filter_needs_week_year(e: JournalEntry, today: Date)
    requires
        iso_week_of(e.date.year as int, e.date.month as int, e.date.day as int).1 == iso_week_of(
            today.year as int,
            today.month as int,
            today.day as int,
        ).1,
        iso_week_of(e.date.year as int, e.date.month as int, e.date.day as int).0 != iso_week_of(
            today.year as int,
            today.month as int,
            today.day as int,
        ).0,
    ensures
        !time_matches(e, TimeFilter::Week, today),
{
}

/// The tally caps at seven entries: once seven entries are in the window,
/// whatever entries follow change no counter.
pub proof fn lemma_tally_caps_at_seven(s: Seq<JournalEntry>, t: Seq<JournalEntry>, f: HabitFilter)
    requires
        s.len() >= 7,
    ensures
        count_habit(window7(s + t), f) == count_habit(window7(s), f),
{
    assert((s + t).take(7) =~= s.take(7));
    if s.len() == 7 {
        assert(s.take(7) =~= s);
    }
    if t.len() == 0 {
        assert(s + t =~= s);
    }
}

/// Decides whether an entry's date matches the time filter.
fn time_matches_exec(e: &JournalEntry, f: TimeFilter, today: Date) -> (r: bool)
    requires
        valid_date(e.date),
        valid_date(today),
    ensures
        r == time_matches(*e, f, today),
{
    match f {
        TimeFilter::Day => e.date == today,
        TimeFilter::Week => {
            let a = iso_week_nums(e.date);
            let b = iso_week_nums(today);
            a.0 == b.0 && a.1 == b.1
        },
        TimeFilter::Month => e.date.month == today.month,
        TimeFilter::Year => e.date.year == today.year,
    }
}

/// Decides whether an entry's selected habit flag is set.
fn habit_matches_exec(e: &JournalEntry, f: HabitFilter) -> (r: bool)
    ensures
        r == habit_matches(*e, f),
{
    match f {
        HabitFilter::Exercise => e.habits.exercise,
        HabitFilter::Contribution => e.habits.contribution,
        HabitFilter::Reading => e.habits.reading,
    }
}

/// Keeps the entries whose date falls in the same calendar period as
/// `today`, in order.
pub fn filter_by_time(entries: Vec<JournalEntry>, filter: TimeFilter, today: Date) -> (r: Vec<
    JournalEntry,
>)
    requires
        valid_date(today),
        forall|k: int| 0 <= k < entries@.len() ==> valid_date(#[trigger] entries@[k].date),
    ensures
        r@ == time_filtered(entries@, filter, today),
        forall|k: int| 0 <= k < r@.len() ==> valid_date(#[trigger] r@[k].date),
{
    let ghost orig = entries@;
    let mut rest = entries;
    let mut out: Vec<JournalEntry> = Vec::new();
    let ghost mut i: int = 0;
    while rest.len() > 0
        invariant
            0 <= i <= orig.len(),
            rest@ == orig.skip(i),
            out@ == time_filtered(orig.take(i), filter, today),
            valid_date(today),
            forall|k: int| 0 <= k < orig.len() ==> valid_date(#[trigger] orig[k].date),
            forall|k: int| 0 <= k < out@.len() ==> valid_date(#[trigger] out@[k].date),
        decreases rest@.len(),
    {
        let e = rest.remove(0);
        proof {
            assert(e == orig[i]);
            assert(rest@ =~= orig.skip(i + 1));
        }
        let ghost out_before = out@;
        let keep = time_matches_exec(&e, filter, today);
        if keep {
            out.push(e);
        }
        proof {
            let prefix = orig.take(i + 1);
            assert(prefix.drop_last() =~= orig.take(i));
            assert(prefix.last() == orig[i]);
            if time_matches(orig[i], filter, today) {
                assert(out@ =~= time_filtered(orig.take(i), filter, today) + seq![orig[i]]);
            } else {
                assert(out@ =~= time_filtered(orig.take(i), filter, today) + Seq::<
                    JournalEntry,
                >::empty());
            }
            i = i + 1;
        }
    }
    proof {
        assert(orig.take(i) =~= orig);
    }
    out
}

/// Keeps the entries whose selected habit flag is set, in order.
fn filter_by_habit(entries: Vec<JournalEntry>, filter: HabitFilter) -> (r: Vec<JournalEntry>)
    ensures
        r@ == habit_filtered(entries@, filter),
{
    let ghost orig = entries@;
    let mut rest = entries;
    let mut out: Vec<JournalEntry> = Vec::new();
    let ghost mut i: int = 0;
    while rest.len() > 0
        invariant
            0 <= i <= orig.len(),
            rest@ == orig.skip(i),
            out@ == habit_filtered(orig.take(i), filter),
        decreases rest@.len(),
    {
        let e = rest.remove(0);
        proof {
            assert(e == orig[i]);
            assert(rest@ =~= orig.skip(i + 1));
        }
        let keep = habit_matches_exec(&e, filter);
        if keep {
            out.push(e);
        }
        proof {
            let prefix = orig.take(i + 1);
            assert(prefix.drop_last() =~= orig.take(i));
            assert(prefix.last() == orig[i]);
            if habit_matches(orig[i], filter) {
                assert(out@ =~= habit_filtered(orig.take(i), filter) + seq![orig[i]]);
            } else {
                assert(out@ =~= habit_filtered(orig.take(i), filter) + Seq::<
                    JournalEntry,
                >::empty());
            }
            i = i + 1;
        }
    }
    proof {
        assert(orig.take(i) =~= orig);
    }
    out
}

/// Folds the first seven entries (or all, when fewer) into the tally: each
/// counter holds how many of those entries completed that habit.
pub fn count(entries: Vec<JournalEntry>) -> (r: HabitCount)
    ensures
        r.exercise as int == count_habit(window7(entries@), HabitFilter::Exercise),
        r.contribution as int == count_habit(window7(entries@), HabitFilter::Contribution),
        r.reading as int == count_habit(window7(entries@), HabitFilter::Reading),
{
    let n: usize = if entries.len() < 7 {
        entries.len()
    } else {
        7
    };
    let mut c = HabitCount::default();
    let mut i: usize = 0;
    while i < n
        invariant
            0 <= i <= n,
            n <= entries@.len(),
            n <= 7,
            c.exercise as int == count_habit(entries@.take(i as int), HabitFilter::Exercise),
            c.contribution as int == count_habit(
                entries@.take(i as int),
                HabitFilter::Contribution,
            ),
            c.reading as int == count_habit(entries@.take(i as int), HabitFilter::Reading),
            c.exercise <= i,
            c.contribution <= i,
            c.reading <= i,
        decreases n - i,
    {
        let h = entries[i].habits;
        c = c.add(h);
        proof {
            let prefix = entries@.take(i + 1);
            assert(prefix.drop_last() =~= entries@.take(i as int));
            assert(prefix.last() == entries@[i as int]);
        }
        i += 1;
    }
    proof {
        assert(entries@.take(n as int) =~= window7(entries@));
    }
    c
}

/// Tally of the entries whose selected habit flag is set, capped at seven
/// of them.
pub fn count_filtered_habit(entries: Vec<JournalEntry>, filter: HabitFilter) -> (r: HabitCount)
    ensures
        r.exercise as int == count_habit(
            window7(habit_filtered(entries@, filter)),
            HabitFilter::Exercise,
        ),
        r.contribution as int == count_habit(
            window7(habit_filtered(entries@, filter)),
            HabitFilter::Contribution,
        ),
        r.reading as int == count_habit(
            window7(habit_filtered(entries@, filter)),
            HabitFilter::Reading,
        ),
{
    let kept = filter_by_habit(entries, filter);
    count(kept)
}

/// Tally of the entries within the same calendar period as `today`,
/// capped at seven of them.
pub fn count_filtered_time(entries: Vec<JournalEntry>, filter: TimeFilter, today: Date) -> (r:
    HabitCount)
    requires
        valid_date(today),
        forall|k: int| 0 <= k < entries@.len() ==> valid_date(#[trigger] entries@[k].date),
    ensures
        r.exercise as int == count_habit(
            window7(time_filtered(entries@, filter, today)),
            HabitFilter::Exercise,
        ),
        r.contribution as int == count_habit(
            window7(time_filtered(entries@, filter, today)),
            HabitFilter::Contribution,
        ),
        r.reading as int == count_habit(
            window7(time_filtered(entries@, filter, today)),
            HabitFilter::Reading,
        ),
{
    let kept = filter_by_time(entries, filter, today);
    count(kept)
}

} // verus!
