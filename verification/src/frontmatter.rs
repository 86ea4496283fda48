use vstd::prelude::*;

use crate::text::{line_views, spec_join, spec_lines, split_lines};

verus! {

/// A delimiter line: exactly the three bytes `---`.
pub open spec fn is_marker(l: Seq<u8>) -> bool {
    l == seq![45u8, 45u8, 45u8]
}

/// Position of the first marker line at or after `from`, if any.
pub open spec fn find_marker(ls: Seq<Seq<u8>>, from: int) -> Option<int>
    decreases ls.len() - from,
{
    if from < 0 || from >= ls.len() {
        None
    } else if is_marker(ls[from]) {
        Some(from)
    } else {
        find_marker(ls, from + 1)
    }
}

pub proof fn lemma_find_marker_some(ls: Seq<Seq<u8>>, from: int)
    requires
        find_marker(ls, from) is Some,
    ensures
        from <= find_marker(ls, from)->Some_0 < ls.len(),
        is_marker(ls[find_marker(ls, from)->Some_0]),
    decreases ls.len() - from,
{
    if !(from < 0 || from >= ls.len()) {
        if !is_marker(ls[from]) {
            lemma_find_marker_some(ls, from + 1);
        }
    }
}

pub proof fn lemma_find_marker_none(ls: Seq<Seq<u8>>, from: int)
    requires
        0 <= from,
        forall|k: int| from <= k < ls.len() ==> !is_marker(ls[k]),
    ensures
        find_marker(ls, from) is None,
    decreases ls.len() - from,
{
    if from < ls.len() {
        lemma_find_marker_none(ls, from + 1);
    }
}

pub proof fn lemma_find_marker_first(ls: Seq<Seq<u8>>, from: int, j: int)
    requires
        0 <= from <= j < ls.len(),
        is_marker(ls[j]),
        forall|k: int| from <= k < j ==> !is_marker(ls[k]),
    ensures
        find_marker(ls, from) == Some(j),
    decreases j - from,
{
    if from < j {
        lemma_find_marker_first(ls, from + 1, j);
    }
}

/// The frontmatter block of a sequence of lines: the lines strictly between
/// the first marker line and the next marker line after it, or nothing when
/// no such pair exists.
pub open spec fn spec_extract_lines(ls: Seq<Seq<u8>>) -> Option<Seq<Seq<u8>>> {
    match find_marker(ls, 0) {
        None => None,
        Some(i) => match find_marker(ls, i + 1) {
            None => None,
            Some(j) => Some(ls.subrange(i + 1, j)),
        },
    }
}

/// The frontmatter of a raw text: the block between the first pair of
/// marker lines, joined with newlines; nothing when the text has no such
/// pair.
pub open spec fn spec_extract(t: Seq<u8>) -> Option<Seq<u8>> {
    match spec_extract_lines(spec_lines(t)) {
        None => None,
        Some(blk) => Some(spec_join(blk)),
    }
}

/// A file with no closing delimiter — no two marker lines at all — has no
/// frontmatter block; such a file is skipped rather than reported.
pub proof fn lemma_unclosed_marker_yields_none(t: Seq<u8>)
    requires
        forall|i: int, j: int|
            0 <= i < j < spec_lines(t).len() ==> !(is_marker(spec_lines(t)[i]) && is_marker(
                spec_lines(t)[j],
            )),
    ensures
        spec_extract(t) is None,
{
    let ls = spec_lines(t);
    match find_marker(ls, 0) {
        None => {},
        Some(i) => {
            lemma_find_marker_some(ls, 0);
            match find_marker(ls, i + 1) {
                None => {},
                Some(j) => {
                    lemma_find_marker_some(ls, i + 1);
                    assert(0 <= i < j < ls.len() && is_marker(ls[i]) && is_marker(ls[j]));
                },
            }
        },
    }
}

/// Decides whether a line is a delimiter line.
fn line_is_marker(l: &Vec<u8>) -> (r: bool)
    ensures
        r == is_marker(l@),
{
    let r = l.len() == 3 && l[0] == 45u8 && l[1] == 45u8 && l[2] == 45u8;
    proof {
        if r {
            assert(l@ =~= seq![45u8, 45u8, 45u8]);
        }
    }
    r
}

/// Extracts the frontmatter block of a raw file text: the lines strictly
/// between the first pair of `---` marker lines, joined with newlines.
/// Returns nothing when the text holds no such pair — in particular when an
/// opening marker is never closed.
pub fn extract_frontmatter(t: &[u8]) -> (r: Option<Vec<u8>>)
    ensures
        match r {
            Some(v) => spec_extract(t@) == Some(v@),
            None => spec_extract(t@) is None,
        },
{
    let lines = split_lines(t);
    let ghost ls = line_views(lines@);
    let n: usize = lines.len();
    let mut i: usize = 0;
    while i < n && !line_is_marker(&lines[i])
        invariant
            0 <= i <= n,
            n == lines@.len(),
            ls == line_views(lines@),
            forall|k: int| 0 <= k < i ==> !is_marker(ls[k]),
        decreases n - i,
    {
        i += 1;
    }
    if i == n {
        proof {
            lemma_find_marker_none(ls, 0);
        }
        return None;
    }
    proof {
        lemma_find_marker_first(ls, 0, i as int);
    }
    let mut j: usize = i + 1;
    while j < n && !line_is_marker(&lines[j])
        invariant
            i + 1 <= j <= n,
            n == lines@.len(),
            ls == line_views(lines@),
            forall|k: int| i + 1 <= k < j ==> !is_marker(ls[k]),
        decreases n - j,
    {
        j += 1;
    }
    if j == n {
        proof {
            lemma_find_marker_none(ls, i + 1);
        }
        return None;
    }
    proof {
        lemma_find_marker_first(ls, i + 1, j as int);
    }
    let mut out: Vec<u8> = Vec::new();
    let mut k: usize = i + 1;
    while k < j
        invariant
            i + 1 <= k <= j <= n,
            n == lines@.len(),
            ls == line_views(lines@),
            out@ == spec_join(ls.subrange(i + 1, k as int)),
        decreases j - k,
    {
        let ghost before = out@;
        if k > i + 1 {
            out.push(10u8);
        }
        out.extend_from_slice(lines[k].as_slice());
        proof {
            let part = ls.subrange(i + 1, k + 1 as int);
            assert(part.drop_last() =~= ls.subrange(i + 1, k as int));
            assert(part.last() == ls[k as int]);
            if k > i + 1 {
                assert(out@ =~= spec_join(part.drop_last()) + seq![10u8] + part.last());
            } else {
                assert(out@ =~= part.last());
            }
        }
        k += 1;
    }
    proof {
        assert(ls.subrange(i + 1, j as int) == spec_extract_lines(ls)->Some_0);
    }
    Some(out)
}

} // verus!
