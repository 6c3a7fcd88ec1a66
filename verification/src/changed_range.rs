//! The span of lines that differ between two frames.

use vstd::prelude::*;

verus! {

/// The characters of each line.
pub open spec fn lines_chars(lines: Seq<String>) -> Seq<Seq<char>> {
    lines.map_values(|l: String| l@)
}

/// The line at `i`, or nothing past the end.
pub open spec fn line_at(lines: Seq<Seq<char>>, i: int) -> Option<Seq<char>> {
    if 0 <= i < lines.len() {
        Some(lines[i])
    } else {
        None
    }
}

/// Whether the line at `i` differs, counting a missing line as different
/// from any present one.
pub open spec fn changed_at(previous: Seq<Seq<char>>, next: Seq<Seq<char>>, i: int) -> bool {
    line_at(previous, i) != line_at(next, i)
}

/// The longer of the two lengths.
pub open spec fn max_len(previous: Seq<Seq<char>>, next: Seq<Seq<char>>) -> nat {
    if previous.len() >= next.len() {
        previous.len()
    } else {
        next.len()
    }
}

/// The first and last changed lines, inclusive.
#[derive(Clone, Copy, Debug, Eq, PartialEq, Structural)]
pub struct ChangedRange {
    pub first: usize,
    pub last: usize,
}

/// What `ChangedRange::between` answers: nothing when no line changed;
/// otherwise the first and the last changed line.
pub open spec fn changed_range_spec(
    previous: Seq<Seq<char>>,
    next: Seq<Seq<char>>,
    r: Option<ChangedRange>,
) -> bool {
    let len = max_len(previous, next);
    match r {
        Option::None => forall|i: int| 0 <= i < len ==> !changed_at(previous, next, i),
        Option::Some(c) => {
            &&& c.first <= c.last < len
            &&& changed_at(previous, next, c.first as int)
            &&& changed_at(previous, next, c.last as int)
            &&& forall|i: int| 0 <= i < c.first ==> !changed_at(previous, next, i)
            &&& forall|i: int| c.last < i < len ==> !changed_at(previous, next, i)
        },
    }
}

fn changed(previous: &[String], next: &[String], i: usize) -> (r: bool)
    ensures
        r == changed_at(lines_chars(previous@), lines_chars(next@), i as int),
{
    let p = i < previous.len();
    let n = i < next.len();
    if p && n {
        let same = previous[i] == next[i];
        proof {
            assert(lines_chars(previous@)[i as int] == previous@[i as int]@);
            assert(lines_chars(next@)[i as int] == next@[i as int]@);
        }
        !same
    } else {
        p != n
    }
}

impl ChangedRange {
    /// The first and last lines that differ between `previous` and `next`, or
    /// `None` when they hold the same lines.
    pub fn between(previous: &[String], next: &[String]) -> (r: Option<ChangedRange>)
        ensures
            changed_range_spec(lines_chars(previous@), lines_chars(next@), r),
    {
        let ghost pv = lines_chars(previous@);
        let ghost nv = lines_chars(next@);
        let len = if previous.len() >= next.len() { previous.len() } else { next.len() };
        let mut first: usize = 0;
        while first < len && !changed(previous, next, first)
            invariant
                pv == lines_chars(previous@),
                nv == lines_chars(next@),
                len == max_len(pv, nv),
                first <= len,
                forall|i: int| 0 <= i < first ==> !changed_at(pv, nv, i),
            decreases len - first,
        {
            first = first + 1;
        }
        if first == len {
            return None;
        }
        let mut last: usize = len - 1;
        while !changed(previous, next, last)
            invariant
                pv == lines_chars(previous@),
                nv == lines_chars(next@),
                len == max_len(pv, nv),
                first <= last < len,
                changed_at(pv, nv, first as int),
                forall|i: int| last < i < len ==> !changed_at(pv, nv, i),
            decreases last - first,
        {
            last = last - 1;
        }
        Some(ChangedRange { first, last })
    }
}

/// No changed line means the same lines: `between` answers `None` exactly
/// when both sides hold the same lines.
pub proof fn law_between_none_iff_equal(
    previous: Seq<Seq<char>>,
    next: Seq<Seq<char>>,
    r: Option<ChangedRange>,
)
    requires
        changed_range_spec(previous, next, r),
    ensures
        r is None <==> previous == next,
{
    let len = max_len(previous, next);
    if r is None {
        if previous.len() != next.len() {
            let m = if previous.len() < next.len() { previous.len() } else { next.len() };
            assert(!changed_at(previous, next, m as int));
        }
        assert forall|i: int| 0 <= i < previous.len() implies previous[i] == next[i] by {
            assert(!changed_at(previous, next, i));
        }
        assert(previous =~= next);
    } else {
        let c = r->Some_0;
        if previous == next {
            assert(!changed_at(previous, next, c.first as int));
        }
    }
}

/// The changed range does not depend on which side came first.
pub proof fn law_between_symmetric(
    previous: Seq<Seq<char>>,
    next: Seq<Seq<char>>,
    r: Option<ChangedRange>,
)
    requires
        changed_range_spec(previous, next, r),
    ensures
        changed_range_spec(next, previous, r),
{
    assert(max_len(previous, next) == max_len(next, previous));
    assert forall|i: int| changed_at(previous, next, i) == changed_at(next, previous, i) by {}
}

/// There is one answer: two results that both meet the description agree.
pub proof fn law_between_unique(
    previous: Seq<Seq<char>>,
    next: Seq<Seq<char>>,
    r: Option<ChangedRange>,
    s: Option<ChangedRange>,
)
    requires
        changed_range_spec(previous, next, r),
        changed_range_spec(previous, next, s),
    ensures
        r == s,
{
    match (r, s) {
        (Option::Some(a), Option::Some(b)) => {
            if a.first < b.first {
                assert(!changed_at(previous, next, a.first as int));
            }
            if b.first < a.first {
                assert(!changed_at(previous, next, b.first as int));
            }
            if a.last < b.last {
                assert(!changed_at(previous, next, b.last as int));
            }
            if b.last < a.last {
                assert(!changed_at(previous, next, a.last as int));
            }
        },
        (Option::Some(a), Option::None) => {
            assert(!changed_at(previous, next, a.first as int));
        },
        (Option::None, Option::Some(b)) => {
            assert(!changed_at(previous, next, b.first as int));
        },
        _ => {},
    }
}

} // verus!
