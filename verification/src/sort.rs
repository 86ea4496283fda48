use vstd::prelude::*;

use crate::aggregate::{date_filtered, sorted_by_date};
use crate::date::{date_le, date_lt, date_before, Date};
use crate::entry::JournalEntry;

verus! {

/// Filtering by date distributes over concatenation.
proof fn lemma_date_filtered_add(s: Seq<JournalEntry>, t: Seq<JournalEntry>, d: Date)
    ensures
        date_filtered(s + t, d) == date_filtered(s, d) + date_filtered(t, d),
    decreases t.len(),
{
    if t.len() == 0 {
        assert(s + t =~= s);
        assert(date_filtered(t, d) =~= Seq::<JournalEntry>::empty());
        assert(date_filtered(s, d) + date_filtered(t, d) =~= date_filtered(s, d));
    } else {
        lemma_date_filtered_add(s, t.drop_last(), d);
        assert((s + t).drop_last() =~= s + t.drop_last());
        assert((s + t).last() == t.last());
        if t.last().date == d {
            assert(date_filtered(s + t, d) =~= date_filtered(s, d) + date_filtered(
                t.drop_last(),
                d,
            ) + seq![t.last()]);
            assert(date_filtered(s, d) + date_filtered(t, d) =~= date_filtered(s, d)
                + date_filtered(t.drop_last(), d) + seq![t.last()]);
        } else {
            assert(date_filtered(s + t, d) =~= date_filtered(s, d) + date_filtered(
                t.drop_last(),
                d,
            ));
            assert(date_filtered(s, d) + date_filtered(t, d) =~= date_filtered(s, d)
                + date_filtered(t.drop_last(), d));
        }
    }
}

/// The date filter of a single entry keeps or drops just that entry.
proof fn lemma_date_filtered_singleton(e: JournalEntry, d: Date)
    ensures
        date_filtered(seq![e], d) == (if e.date == d {
            seq![e]
        } else {
            Seq::<JournalEntry>::empty()
        }),
{
    let x = seq![e];
    assert(x.last() == e);
    assert(x.drop_last() =~= Seq::<JournalEntry>::empty());
    assert(date_filtered(Seq::<JournalEntry>::empty(), d) == Seq::<JournalEntry>::empty());
    assert(date_filtered(x, d) == date_filtered(x.drop_last(), d) + (if e.date == d {
        seq![e]
    } else {
        Seq::<JournalEntry>::empty()
    }));
    assert(Seq::<JournalEntry>::empty() + seq![e] =~= seq![e]);
    assert(Seq::<JournalEntry>::empty() + Seq::<JournalEntry>::empty() =~= Seq::<
        JournalEntry,
    >::empty());
}

/// Swapping two neighbours of unequal date leaves every date's
/// subsequence unchanged.
proof fn lemma_swap_adjacent_preserves_date_filtered(s: Seq<JournalEntry>, j: int, d: Date)
    requires
        1 <= j < s.len(),
        s[j - 1].date != s[j].date,
    ensures
        date_filtered(s.update(j - 1, s[j]).update(j, s[j - 1]), d) == date_filtered(s, d),
{
    let p = s.subrange(0, j - 1);
    let x = seq![s[j - 1]];
    let y = seq![s[j]];
    let q = s.subrange(j + 1, s.len() as int);
    let s2 = s.update(j - 1, s[j]).update(j, s[j - 1]);
    assert(s =~= p + x + y + q);
    assert(s2 =~= p + y + x + q);
    lemma_date_filtered_add(p + x + y, q, d);
    lemma_date_filtered_add(p + x, y, d);
    lemma_date_filtered_add(p, x, d);
    lemma_date_filtered_add(p + y + x, q, d);
    lemma_date_filtered_add(p + y, x, d);
    lemma_date_filtered_add(p, y, d);
    lemma_date_filtered_singleton(s[j - 1], d);
    lemma_date_filtered_singleton(s[j], d);
    assert(date_filtered(x, d) + date_filtered(y, d) =~= date_filtered(y, d) + date_filtered(
        x,
        d,
    ));
    assert(date_filtered(s, d) =~= date_filtered(p, d) + date_filtered(x, d) + date_filtered(y, d)
        + date_filtered(q, d));
    assert(date_filtered(s2, d) =~= date_filtered(p, d) + date_filtered(y, d) + date_filtered(x, d)
        + date_filtered(q, d));
}

/// Sorts the entries ascending by date with an insertion sort whose every
/// exchange crosses a strict date inequality: the sort is stable, so
/// entries of equal date keep their discovery order. The result is a
/// permutation of the input — for every date, the subsequence of entries
/// bearing it is exactly the input's.
pub fn sort_entries(entries: Vec<JournalEntry>) -> (r: Vec<JournalEntry>)
    ensures
        r@.len() == entries@.len(),
        sorted_by_date(r@),
        forall|d: Date| date_filtered(r@, d) == date_filtered(entries@, d),
        forall|k: int| 0 <= k < r@.len() ==> entries@.contains(r@[k]),
{
    let ghost orig = entries@;
    let mut v = entries;
    let mut i: usize = 1;
    while i < v.len()
        invariant
            i >= 1,
            v@.len() == orig.len(),
            i <= orig.len() || orig.len() <= 1,
            forall|k: int, l: int| 0 <= k < l < i && l < v@.len() ==> date_le(
                v@[k].date,
                v@[l].date,
            ),
            forall|d: Date| date_filtered(v@, d) == date_filtered(orig, d),
            forall|k: int| 0 <= k < v@.len() ==> orig.contains(v@[k]),
        decreases v@.len() - i,
    {
        let mut j: usize = i;
        while j > 0 && date_before(v[j].date, v[j - 1].date)
            invariant
                0 <= j <= i < v@.len(),
                v@.len() == orig.len(),
                forall|k: int, l: int|
                    0 <= k < l <= i && k != j && l != j ==> date_le(v@[k].date, v@[l].date),
                forall|l: int| j < l <= i ==> date_lt(v@[j as int].date, v@[l].date),
                forall|d: Date| date_filtered(v@, d) == date_filtered(orig, d),
                forall|k: int| 0 <= k < v@.len() ==> orig.contains(v@[k]),
            decreases j,
        {
            let ghost s = v@;
            let e = v.remove(j);
            v.insert(j - 1, e);
            proof {
                assert(v@ =~= s.update(j - 1, s[j as int]).update(j as int, s[j - 1]));
                assert(s[j as int].date != s[j - 1].date);
                assert forall|d: Date| date_filtered(v@, d) == date_filtered(orig, d) by {
                    lemma_swap_adjacent_preserves_date_filtered(s, j as int, d);
                }
                assert forall|k: int, l: int|
                    0 <= k < l <= i && k != j - 1 && l != j - 1 implies date_le(
                    v@[k].date,
                    v@[l].date,
                ) by {
                    if l == j {
                        assert(v@[l] == s[j - 1]);
                        if k < j - 1 {
                            assert(date_le(s[k].date, s[j - 1].date));
                        }
                    } else if k == j {
                        assert(v@[k] == s[j - 1]);
                        assert(date_le(s[j - 1].date, s[l].date));
                    } else {
                        assert(v@[k] == s[k]);
                        assert(v@[l] == s[l]);
                    }
                }
                assert forall|l: int| j - 1 < l <= i implies date_lt(
                    v@[j - 1].date,
                    (#[trigger] v@[l]).date,
                ) by {
                    assert(v@[j - 1] == s[j as int]);
                    if l == j {
                        assert(v@[l] == s[j - 1]);
                    } else {
                        assert(v@[l] == s[l]);
                    }
                }
            }
            j -= 1;
        }
        proof {
            assert forall|k: int, l: int| 0 <= k < l <= i implies date_le(
                v@[k].date,
                v@[l].date,
            ) by {
                if l == j && k < j {
                    assert(date_le(v@[j - 1].date, v@[j as int].date));
                    if k < j - 1 {
                        assert(date_le(v@[k].date, v@[j - 1].date));
                    }
                } else if k == j && l > j {
                    assert(date_lt(v@[j as int].date, v@[l].date));
                }
            }
        }
        i += 1;
    }
    v
}

} // verus!
