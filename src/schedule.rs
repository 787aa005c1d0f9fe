use vstd::prelude::*;
use crate::config::{category_entry_count, sections_view, task_entry_count, SectionConfig};

verus! {

/// `a` comes before `b` by section, then category, then entry index.
pub open spec fn precedes(a: (usize, usize, usize), b: (usize, usize, usize)) -> bool {
    a.0 < b.0 || (a.0 == b.0 && (a.1 < b.1 || (a.1 == b.1 && a.2 < b.2)))
}

/// `(section, category, entry)` names an entry of `sections`.
pub open spec fn names_entry(sections: Seq<(String, SectionConfig)>, r: (usize, usize, usize)) -> bool {
    &&& r.0 < sections.len()
    &&& r.1 < sections[r.0 as int].1.entries@.len()
    &&& r.2 < sections[r.0 as int].1.entries@[r.1 as int].1@.len()
}

/// The order in which the entries of `sections` are run: section by
/// section, each category in turn, each entry in its declared order, each
/// exactly once.
pub fn visit_order(sections: &Vec<(String, SectionConfig)>) -> (r: Vec<(usize, usize, usize)>)
    ensures
        r@.len() == task_entry_count(sections_view(sections@)),
        forall|k: int| 0 <= k < r@.len() ==> names_entry(sections@, #[trigger] r@[k]),
        forall|a: int, b: int| 0 <= a < b < r@.len() ==> precedes(#[trigger] r@[a], #[trigger] r@[b]),
{
    let ghost s = sections_view(sections@);
    let mut out: Vec<(usize, usize, usize)> = Vec::new();
    let mut i: usize = 0;
    while i < sections.len()
        invariant
            i <= sections.len(),
            s == sections_view(sections@),
            s.len() == sections@.len(),
            out@.len() == task_entry_count(s.take(i as int)),
            forall|k: int| 0 <= k < out@.len() ==> names_entry(sections@, #[trigger] out@[k]),
            forall|k: int| 0 <= k < out@.len() ==> (#[trigger] out@[k]).0 < i,
            forall|a: int, b: int| 0 <= a < b < out@.len() ==> precedes(#[trigger] out@[a], #[trigger] out@[b]),
        decreases sections.len() - i,
    {
        let cats = &sections[i].1.entries;
        let ghost c = s[i as int].1.entries;
        assert(s.take(i + 1).drop_last() == s.take(i as int));
        let mut j: usize = 0;
        while j < cats.len()
            invariant
                i < sections.len(),
                j <= cats.len(),
                cats == sections@[i as int].1.entries,
                c == s[i as int].1.entries,
                c.len() == cats@.len(),
                s == sections_view(sections@),
                s.len() == sections@.len(),
                out@.len() == task_entry_count(s.take(i as int)) + category_entry_count(c.take(j as int)),
                forall|k: int| 0 <= k < out@.len() ==> names_entry(sections@, #[trigger] out@[k]),
                forall|k: int|
                    0 <= k < out@.len() ==> precedes(#[trigger] out@[k], (i, j, 0)) || (out@[k].0 == i && out@[k].1 < j),
                forall|a: int, b: int| 0 <= a < b < out@.len() ==> precedes(#[trigger] out@[a], #[trigger] out@[b]),
            decreases cats.len() - j,
        {
            let n = cats[j].1.len();
            assert(c.take(j + 1).drop_last() == c.take(j as int));
            assert(c[j as int].1.len() == n);
            let mut k: usize = 0;
            while k < n
                invariant
                    i < sections.len(),
                    j < cats.len(),
                    k <= n,
                    n == cats@[j as int].1@.len(),
                    cats == sections@[i as int].1.entries,
                    out@.len() == task_entry_count(s.take(i as int)) + category_entry_count(c.take(j as int)) + k,
                    forall|q: int| 0 <= q < out@.len() ==> names_entry(sections@, #[trigger] out@[q]),
                    forall|q: int| 0 <= q < out@.len() ==> precedes(#[trigger] out@[q], (i, j, k)),
                    forall|a: int, b: int| 0 <= a < b < out@.len() ==> precedes(#[trigger] out@[a], #[trigger] out@[b]),
                decreases n - k,
            {
                out.push((i, j, k));
                k = k + 1;
            }
            j = j + 1;
        }
        assert(c.take(cats.len() as int) == c);
        i = i + 1;
    }
    assert(s.take(sections.len() as int) == s);
    out
}

} // verus!
