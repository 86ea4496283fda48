use vstd::prelude::*;

use crate::entry::{HabitFilter, Habits};

verus! {

/// Per-habit completion counts for one report.
#[derive(Clone, Copy, PartialEq, Eq, Structural, Debug)]
pub struct HabitCount {
    pub exercise: usize,
    pub reading: usize,
    pub contribution: usize,
}

impl Default for HabitCount {
    /// All three counters start at zero.
    fn default() -> (r: HabitCount)
        ensures
            r == (HabitCount { exercise: 0, reading: 0, contribution: 0 }),
    {
        HabitCount { exercise: 0, reading: 0, contribution: 0 }
    }
}

impl HabitCount {
    /// Folds one entry's flags in: each counter rises by one exactly when
    /// its flag is set, and is otherwise untouched.
    pub fn add(self, rhs: Habits) -> (r: HabitCount)
        requires
            self.exercise < usize::MAX,
            self.contribution < usize::MAX,
            self.reading < usize::MAX,
        ensures
            r.exercise as int == self.exercise as int + (if rhs.exercise {
                1int
            } else {
                0int
            }),
            r.contribution as int == self.contribution as int + (if rhs.contribution {
                1int
            } else {
                0int
            }),
            r.reading as int == self.reading as int + (if rhs.reading {
                1int
            } else {
                0int
            }),
    {
        let mut hc = self;
        if rhs.exercise {
            hc.exercise += 1;
        }
        if rhs.contribution {
            hc.contribution += 1;
        }
        if rhs.reading {
            hc.reading += 1;
        }
        hc
    }

    /// The full report: one line per habit, in the fixed order exercise,
    /// contribution, reading.
    pub fn render(&self) -> (r: Vec<u8>)
        ensures
            r@ == spec_report(*self),
    {
        let mut out: Vec<u8> = Vec::new();
        push_padded_count(&mut out, self.exercise);
        push_label(&mut out, HabitFilter::Exercise);
        push_padded_count(&mut out, self.contribution);
        push_label(&mut out, HabitFilter::Contribution);
        push_padded_count(&mut out, self.reading);
        push_label(&mut out, HabitFilter::Reading);
        proof {
            assert(out@ =~= spec_report(*self));
        }
        out
    }

    /// The single-habit report: one line, for the filtered habit only.
    pub fn render_filtered(&self, filter: HabitFilter) -> (r: Vec<u8>)
        ensures
            r@ == spec_report_filtered(*self, filter),
    {
        let mut out: Vec<u8> = Vec::new();
        match filter {
            HabitFilter::Exercise => push_padded_count(&mut out, self.exercise),
            HabitFilter::Contribution => push_padded_count(&mut out, self.contribution),
            HabitFilter::Reading => push_padded_count(&mut out, self.reading),
        }
        push_label(&mut out, filter);
        proof {
            assert(out@ =~= spec_report_filtered(*self, filter));
        }
        out
    }
}

/// The decimal digits of `n`, most significant first.
pub open spec fn spec_dec(n: int) -> Seq<u8>
    decreases n,
{
    if n < 10 {
        seq![(48 + n) as u8]
    } else {
        spec_dec(n / 10).push((48 + n % 10) as u8)
    }
}

/// The decimal digits of `n`, right-aligned with spaces to at least four
/// bytes.
pub open spec fn spec_pad4(n: int) -> Seq<u8> {
    if spec_dec(n).len() < 4 {
        Seq::new((4 - spec_dec(n).len()) as nat, |i: int| 32u8) + spec_dec(n)
    } else {
        spec_dec(n)
    }
}

/// The label closing a count line: ` - <habit name>` and a newline.
pub open spec fn spec_label(f: HabitFilter) -> Seq<u8> {
    match f {
        HabitFilter::Exercise => seq![
            32u8,
            45u8,
            32u8,
            101u8,
            120u8,
            101u8,
            114u8,
            99u8,
            105u8,
            115u8,
            101u8,
            10u8,
        ],
        HabitFilter::Contribution => seq![
            32u8,
            45u8,
            32u8,
            99u8,
            111u8,
            110u8,
            116u8,
            114u8,
            105u8,
            98u8,
            10u8,
        ],
        HabitFilter::Reading => seq![
            32u8,
            45u8,
            32u8,
            114u8,
            101u8,
            97u8,
            100u8,
            105u8,
            110u8,
            103u8,
            10u8,
        ],
    }
}

/// One report line: the count, right-aligned to four columns, then the
/// habit's label.
pub open spec fn spec_count_line(n: int, f: HabitFilter) -> Seq<u8> {
    spec_pad4(n) + spec_label(f)
}

/// The three-line report in the fixed habit order.
pub open spec fn spec_report(c: HabitCount) -> Seq<u8> {
    spec_count_line(c.exercise as int, HabitFilter::Exercise) + spec_count_line(
        c.contribution as int,
        HabitFilter::Contribution,
    ) + spec_count_line(c.reading as int, HabitFilter::Reading)
}

/// The one-line report of a single filtered habit.
pub open spec fn spec_report_filtered(c: HabitCount, f: HabitFilter) -> Seq<u8> {
    match f {
        HabitFilter::Exercise => spec_count_line(c.exercise as int, HabitFilter::Exercise),
        HabitFilter::Contribution => spec_count_line(
            c.contribution as int,
            HabitFilter::Contribution,
        ),
        HabitFilter::Reading => spec_count_line(c.reading as int, HabitFilter::Reading),
    }
}

/// Appends the decimal digits of `n`.
fn push_dec(out: &mut Vec<u8>, n: usize)
    ensures
        final(out)@ == old(out)@ + spec_dec(n as int),
    decreases n,
{
    if n >= 10 {
        push_dec(out, n / 10);
    }
    out.push(48 + (n % 10) as u8);
    proof {
        assert(final(out)@ =~= old(out)@ + spec_dec(n as int));
    }
}

/// Appends the count, right-aligned with spaces to four columns.
fn push_padded_count(out: &mut Vec<u8>, n: usize)
    ensures
        final(out)@ == old(out)@ + spec_pad4(n as int),
{
    let ghost base = out@;
    let mut digits: Vec<u8> = Vec::new();
    push_dec(&mut digits, n);
    let pads: usize = if digits.len() < 4 {
        4 - digits.len()
    } else {
        0
    };
    let mut k: usize = 0;
    while k < pads
        invariant
            k <= pads,
            out@ == base + Seq::new(k as nat, |i: int| 32u8),
        decreases pads - k,
    {
        out.push(32u8);
        proof {
            assert(out@ =~= base + Seq::new((k + 1) as nat, |i: int| 32u8));
        }
        k += 1;
    }
    out.append(&mut digits);
    proof {
        assert(out@ =~= base + spec_pad4(n as int));
    }
}

/// Appends a habit's label.
fn push_label(out: &mut Vec<u8>, f: HabitFilter)
    ensures
        final(out)@ == old(out)@ + spec_label(f),
{
    let ghost base = out@;
    out.push(32u8);
    out.push(45u8);
    out.push(32u8);
    match f {
        HabitFilter::Exercise => {
            out.push(101u8);
            out.push(120u8);
            out.push(101u8);
            out.push(114u8);
            out.push(99u8);
            out.push(105u8);
            out.push(115u8);
            out.push(101u8);
        },
        HabitFilter::Contribution => {
            out.push(99u8);
            out.push(111u8);
            out.push(110u8);
            out.push(116u8);
            out.push(114u8);
            out.push(105u8);
            out.push(98u8);
        },
        HabitFilter::Reading => {
            out.push(114u8);
            out.push(101u8);
            out.push(97u8);
            out.push(100u8);
            out.push(105u8);
            out.push(110u8);
            out.push(103u8);
        },
    }
    out.push(10u8);
    proof {
        assert(out@ =~= base + spec_label(f));
    }
}

} // verus!
