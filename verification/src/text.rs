use vstd::prelude::*;

verus! {

/// A line with one trailing carriage return removed, as `str::lines` does.
pub open spec fn strip_cr(l: Seq<u8>) -> Seq<u8> {
    if l.len() > 0 && l[l.len() - 1] == 13u8 {
        l.drop_last()
    } else {
        l
    }
}

/// Position of the first newline byte at or after `from`, if any.
pub open spec fn find_nl(t: Seq<u8>, from: int) -> Option<int>
    decreases t.len() - from,
{
    if from < 0 || from >= t.len() {
        None
    } else if t[from] == 10u8 {
        Some(from)
    } else {
        find_nl(t, from + 1)
    }
}

pub proof fn lemma_find_nl_some(t: Seq<u8>, from: int)
    requires
        find_nl(t, from) is Some,
    ensures
        from <= find_nl(t, from)->Some_0 < t.len(),
        t[find_nl(t, from)->Some_0] == 10u8,
    decreases t.len() - from,
{
    if !(from < 0 || from >= t.len()) {
        if t[from] != 10u8 {
            lemma_find_nl_some(t, from + 1);
        }
    }
}

pub proof fn lemma_find_nl_none(t: Seq<u8>, from: int)
    requires
        0 <= from,
        forall|k: int| from <= k < t.len() ==> t[k] != 10u8,
    ensures
        find_nl(t, from) is None,
    decreases t.len() - from,
{
    if from < t.len() {
        lemma_find_nl_none(t, from + 1);
    }
}

pub proof fn lemma_find_nl_first(t: Seq<u8>, from: int, j: int)
    requires
        0 <= from <= j < t.len(),
        t[j] == 10u8,
        forall|k: int| from <= k < j ==> t[k] != 10u8,
    ensures
        find_nl(t, from) == Some(j),
    decreases j - from,
{
    if from < j {
        lemma_find_nl_first(t, from + 1, j);
    }
}

/// The lines of `t` starting at byte `from`: split on newline bytes, each
/// line stripped of one trailing carriage return, no trailing empty line
/// when the text ends in a newline.
pub open spec fn spec_lines_from(t: Seq<u8>, from: int) -> Seq<Seq<u8>>
    decreases t.len() - from,
    via spec_lines_from_dec
{
    if from < 0 || from >= t.len() {
        Seq::empty()
    } else {
        match find_nl(t, from) {
            None => seq![strip_cr(t.subrange(from, t.len() as int))],
            Some(j) => seq![strip_cr(t.subrange(from, j))] + spec_lines_from(t, j + 1),
        }
    }
}

#[via_fn]
proof fn spec_lines_from_dec(t: Seq<u8>, from: int) {
    if !(from < 0 || from >= t.len()) {
        if find_nl(t, from) is Some {
            lemma_find_nl_some(t, from);
        }
    }
}

/// The lines of a whole text.
pub open spec fn spec_lines(t: Seq<u8>) -> Seq<Seq<u8>> {
    spec_lines_from(t, 0)
}

/// The views of a vector of byte lines.
pub open spec fn line_views(ls: Seq<Vec<u8>>) -> Seq<Seq<u8>> {
    ls.map_values(|l: Vec<u8>| l@)
}

/// Splits a text into its lines, as `str::lines` would: on newline bytes,
/// with one trailing carriage return removed from each line.
pub fn split_lines(t: &[u8]) -> (r: Vec<Vec<u8>>)
    ensures
        line_views(r@) == spec_lines(t@),
{
    let n: usize = t.len();
    let mut out: Vec<Vec<u8>> = Vec::new();
    let mut pos: usize = 0;
    while pos < n
        invariant
            pos <= n,
            n == t@.len(),
            line_views(out@) + spec_lines_from(t@, pos as int) == spec_lines(t@),
        decreases n - pos,
    {
        let mut j: usize = pos;
        while j < n && t[j] != 10u8
            invariant
                pos <= j <= n,
                n == t@.len(),
                forall|k: int| pos <= k < j ==> t@[k] != 10u8,
            decreases n - j,
        {
            j += 1;
        }
        let stop: usize = if j > pos && t[j - 1] == 13u8 {
            j - 1
        } else {
            j
        };
        let mut line: Vec<u8> = Vec::new();
        let mut k: usize = pos;
        while k < stop
            invariant
                pos <= k <= stop <= n,
                n == t@.len(),
                line@ == t@.subrange(pos as int, k as int),
            decreases stop - k,
        {
            line.push(t[k]);
            assert(line@ =~= t@.subrange(pos as int, k + 1));
            k += 1;
        }
        proof {
            if j < n {
                lemma_find_nl_first(t@, pos as int, j as int);
            } else {
                lemma_find_nl_none(t@, pos as int);
            }
            if j < n {
                assert(line@ =~= strip_cr(t@.subrange(pos as int, j as int)));
            } else {
                assert(line@ =~= strip_cr(t@.subrange(pos as int, t@.len() as int)));
            }
        }
        let ghost old_out = out@;
        out.push(line);
        proof {
            assert(line_views(out@) =~= line_views(old_out).push(line@));
            if j < n {
                assert(line_views(out@) + spec_lines_from(t@, j + 1 as int) =~= line_views(
                    old_out,
                ) + (seq![line@] + spec_lines_from(t@, j + 1 as int)));
            } else {
                assert(line_views(out@) + spec_lines_from(t@, n as int) =~= line_views(old_out)
                    + seq![line@]);
            }
        }
        pos = if j < n {
            j + 1
        } else {
            n
        };
    }
    out
}

/// Lines joined with a single newline between them, no trailing newline.
pub open spec fn spec_join(ls: Seq<Seq<u8>>) -> Seq<u8>
    decreases ls.len(),
{
    if ls.len() == 0 {
        Seq::empty()
    } else if ls.len() == 1 {
        ls[0]
    } else {
        spec_join(ls.drop_last()) + seq![10u8] + ls.last()
    }
}

} // verus!
