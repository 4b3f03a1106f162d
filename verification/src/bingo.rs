//! The twelve lines of a 5x5 board and the test for a completed one.
use std::collections::HashSet;
use vstd::prelude::*;

verus! {

broadcast use vstd::std_specs::hash::group_hash_axioms;

/// The cell indices of every line of a 5x5 board, in the order they are
/// tried: the five rows, the five columns, then the two diagonals.
pub const BINGO_LINES: [[usize; 5]; 12] = [
    [0, 1, 2, 3, 4],
    [5, 6, 7, 8, 9],
    [10, 11, 12, 13, 14],
    [15, 16, 17, 18, 19],
    [20, 21, 22, 23, 24],
    [0, 5, 10, 15, 20],
    [1, 6, 11, 16, 21],
    [2, 7, 12, 17, 22],
    [3, 8, 13, 18, 23],
    [4, 9, 14, 19, 24],
    [0, 6, 12, 18, 24],
    [4, 8, 12, 16, 20],
];

/// Line `k` (0 <= k < 12): rows are `5r..5r+4`, columns `c, c+5, ..., c+20`,
/// then the main and the anti diagonal.
pub open spec fn line_cell(k: int, m: int) -> usize {
    if k < 5 {
        (5 * k + m) as usize
    } else if k < 10 {
        ((k - 5) + 5 * m) as usize
    } else if k == 10 {
        (6 * m) as usize
    } else {
        (4 + 4 * m) as usize
    }
}

/// Line `k` as a sequence of five cell indices.
pub open spec fn line_seq(k: int) -> Seq<usize> {
    Seq::new(5, |m: int| line_cell(k, m))
}

/// Every cell of line `k` is in `marked`.
pub open spec fn line_complete(marked: Set<usize>, k: int) -> bool {
    forall|m: int| 0 <= m < 5 ==> marked.contains(#[trigger] line_cell(k, m))
}

/// The first line, in the order of `BINGO_LINES`, whose cells are all marked.
pub open spec fn first_complete_line(marked: Set<usize>) -> Option<int> {
    if exists|k: int| 0 <= k < 12 && #[trigger] line_complete(marked, k) {
        Some(
            choose|k: int|
                0 <= k < 12 && #[trigger] line_complete(marked, k) && forall|k2: int|
                    0 <= k2 < k ==> !line_complete(marked, k2),
        )
    } else {
        None
    }
}

/// The spec view of `winning_line`'s answer.
pub open spec fn winning_line_spec(marked: Set<usize>) -> Option<Seq<usize>> {
    match first_complete_line(marked) {
        Some(k) => Some(line_seq(k)),
        None => None,
    }
}

/// Returns the first line (rows, then columns, then diagonals) whose five
/// cells are all in `marked`, or `None` when no line is complete.
pub fn winning_line(marked: &HashSet<usize>) -> (r: Option<[usize; 5]>)
    ensures
        r is None <==> (forall|k: int| 0 <= k < 12 ==> !line_complete(marked@, k)),
        r matches Some(line) ==> Some(line@) == winning_line_spec(marked@),
{
    let lines = BINGO_LINES;
    assert(forall|k: int, m: int| 0 <= k < 12 && 0 <= m < 5 ==> lines[k][m] == line_cell(k, m));
    let mut k: usize = 0;
    while k < 12
        invariant
            k <= 12,
            forall|k2: int, m2: int| 0 <= k2 < 12 && 0 <= m2 < 5 ==> lines[k2][m2] == line_cell(k2, m2),
            forall|k2: int| 0 <= k2 < k ==> !line_complete(marked@, k2),
        decreases 12 - k,
    {
        let line = lines[k];
        let mut all = true;
        let mut m: usize = 0;
        while m < 5
            invariant
                m <= 5,
                k < 12,
                line == lines[k as int],
                forall|m2: int| 0 <= m2 < 5 ==> line[m2] == line_cell(k as int, m2),
                all <==> (forall|m2: int| 0 <= m2 < m ==> marked@.contains(line_cell(k as int, m2))),
            decreases 5 - m,
        {
            let present = marked.contains(&line[m]);
            assert(present == marked@.contains(line_cell(k as int, m as int)));
            if !present {
                all = false;
            }
            m += 1;
        }
        if all {
            proof {
                assert(line_complete(marked@, k as int));
                assert(first_complete_line(marked@) == Some(k as int));
                assert(line@ =~= line_seq(k as int));
            }
            return Some(line);
        }
        k += 1;
    }
    None
}

} // verus!
