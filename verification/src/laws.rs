use vstd::prelude::*;

use crate::render::{line_prefix, outputs, outputs_upto, render_line};
use crate::search::{contains_pat, replace_all};

verus! {

/// The number of lines among the first `n` that contain `pat`.
pub open spec fn count_matching(lines: Seq<Seq<u8>>, pat: Seq<u8>, n: int) -> int
    decreases n,
{
    if n <= 0 {
        0
    } else {
        count_matching(lines, pat, n - 1) + (if contains_pat(lines[n - 1], pat) {
            1int
        } else {
            0int
        })
    }
}

/// The 0-based indices, in increasing order, of the lines among the first
/// `n` that contain `pat`.
pub open spec fn match_indices(lines: Seq<Seq<u8>>, pat: Seq<u8>, n: int) -> Seq<int>
    decreases n,
{
    if n <= 0 {
        Seq::empty()
    } else {
        match_indices(lines, pat, n - 1) + (if contains_pat(lines[n - 1], pat) {
            seq![n - 1]
        } else {
            Seq::empty()
        })
    }
}

/// Law: the scan emits exactly one output record per line that contains the
/// pattern, so the number of output records equals the number of such lines
/// (and every line counts when the pattern is empty).
pub proof fn lemma_output_count(
    lines: Seq<Seq<u8>>,
    pat: Seq<u8>,
    painted: Seq<u8>,
    numbered: bool,
    n: int,
)
    requires
        0 <= n <= lines.len(),
    ensures
        outputs_upto(lines, pat, painted, numbered, n).len() == count_matching(lines, pat, n),
    decreases n,
{
    if n > 0 {
        lemma_output_count(lines, pat, painted, numbered, n - 1);
    }
}

/// Law: with an empty pattern every line matches, so the scan over the
/// first `n` lines counts all `n` of them.
pub proof fn lemma_empty_pattern_counts_all(lines: Seq<Seq<u8>>, n: int)
    requires
        0 <= n <= lines.len(),
    ensures
        count_matching(lines, Seq::empty(), n) == n,
    decreases n,
{
    if n > 0 {
        lemma_empty_pattern_counts_all(lines, n - 1);
        crate::search::lemma_empty_pat_matches(lines[n - 1]);
    }
}

/// Law: the scan keeps file order. The output records over the first `n`
/// lines render exactly the matching lines: the j-th record renders the line
/// at the j-th matching index, those indices increase strictly, and every
/// line that contains the pattern appears among them.
pub proof fn lemma_output_order(
    lines: Seq<Seq<u8>>,
    pat: Seq<u8>,
    painted: Seq<u8>,
    numbered: bool,
    n: int,
)
    requires
        0 <= n <= lines.len(),
    ensures
        ({
            let out = outputs_upto(lines, pat, painted, numbered, n);
            let mi = match_indices(lines, pat, n);
            &&& out.len() == mi.len()
            &&& forall|j: int|
                0 <= j < mi.len() ==> 0 <= #[trigger] mi[j] < n && contains_pat(lines[mi[j]], pat)
            &&& forall|j: int|
                0 <= j < mi.len() ==> #[trigger] out[j] == render_line(
                    lines[mi[j]],
                    pat,
                    painted,
                    numbered,
                    (mi[j] + 1) as nat,
                )
            &&& forall|j1: int, j2: int| 0 <= j1 < j2 < mi.len() ==> mi[j1] < mi[j2]
            &&& forall|k: int|
                0 <= k < n && contains_pat(lines[k], pat) ==> #[trigger] mi.contains(k)
        }),
    decreases n,
{
    if n > 0 {
        lemma_output_order(lines, pat, painted, numbered, n - 1);
        let mi0 = match_indices(lines, pat, n - 1);
        let mi = match_indices(lines, pat, n);
        assert forall|k: int| 0 <= k < n && contains_pat(lines[k], pat) implies #[trigger] mi.contains(
            k,
        ) by {
            if k < n - 1 {
                assert(mi0.contains(k));
                let i = choose|i: int| 0 <= i < mi0.len() && mi0[i] == k;
                assert(mi[i] == k);
            } else {
                assert(mi[mi0.len() as int] == n - 1);
            }
        }
    }
}

/// Law: with line numbers on, each output record begins with the
/// line-number prefix of the 1-based index of the line it renders.
pub proof fn lemma_number_prefix(lines: Seq<Seq<u8>>, pat: Seq<u8>, painted: Seq<u8>, n: int)
    requires
        0 <= n <= lines.len(),
    ensures
        ({
            let out = outputs_upto(lines, pat, painted, true, n);
            let mi = match_indices(lines, pat, n);
            forall|j: int|
                0 <= j < mi.len() ==> #[trigger] out[j].take(
                    line_prefix((mi[j] + 1) as nat).len() as int,
                ) == line_prefix((mi[j] + 1) as nat)
        }),
{
    lemma_output_order(lines, pat, painted, true, n);
    let out = outputs_upto(lines, pat, painted, true, n);
    let mi = match_indices(lines, pat, n);
    assert forall|j: int|
        0 <= j < mi.len() implies #[trigger] out[j].take(line_prefix((mi[j] + 1) as nat).len() as int)
        == line_prefix((mi[j] + 1) as nat) by {
        let pre = line_prefix((mi[j] + 1) as nat);
        let body = replace_all(lines[mi[j]], pat, painted);
        assert(out[j] == pre + body);
        assert((pre + body).take(pre.len() as int) =~= pre);
    }
}

/// Law: the scan is deterministic. Two runs over the same lines, the same
/// pattern, the same painted form of the pattern and the same numbering flag
/// produce identical output records.
pub proof fn lemma_scan_deterministic(
    lines: Seq<Seq<u8>>,
    pat: Seq<u8>,
    painted: Seq<u8>,
    numbered: bool,
    r1: Seq<Seq<u8>>,
    r2: Seq<Seq<u8>>,
)
    requires
        r1 == outputs(lines, pat, painted, numbered),
        r2 == outputs(lines, pat, painted, numbered),
    ensures
        r1 == r2,
{
}

} // verus!
