//! The fixed, ordered catalog of local templates that the matcher tries
//! before falling back to randomized placement.

use vstd::prelude::*;

use crate::space::DotSpace;
use crate::space::in_bounds;
use crate::space::space_wf;

verus! {

/// A matching template over the marker alphabet: `0` don't-care, `1` must be
/// occupied, `2` must be empty, `3` must be empty and marks the center.
pub type Pattern = DotSpace;

/// A template is a non-empty rectangle over the marker alphabet with at
/// least one center cell.
pub open spec fn pattern_wf(p: Seq<Seq<u8>>) -> bool {
    &&& space_wf(p)
    &&& forall|x: int, y: int| in_bounds(p, x, y) ==> (#[trigger] p[x][y]) <= 3
    &&& exists|x: int, y: int| in_bounds(p, x, y) && (#[trigger] p[x][y]) == 3
}

/// The template's center marker sits exactly at its geometric center: the
/// dimensions are odd and `3` occurs at the middle cell and nowhere else.
pub open spec fn pattern_centered(p: Seq<Seq<u8>>) -> bool {
    &&& p.len() % 2 == 1
    &&& p[0].len() % 2 == 1
    &&& forall|x: int, y: int|
        in_bounds(p, x, y) ==> ((#[trigger] p[x][y]) == 3 <==> (x == (p.len() - 1) / 2 && y == (
        p[0].len() - 1) / 2))
}

/// The fixed template catalog as a mathematical constant, in priority
/// order.
pub open spec fn pattern_catalog() -> Seq<Seq<Seq<u8>>> {
    seq![
        seq![
            seq![0u8, 1u8, 1u8, 1u8, 1u8, 1u8, 0u8],
            seq![1u8, 2u8, 2u8, 2u8, 2u8, 2u8, 1u8],
            seq![1u8, 2u8, 2u8, 2u8, 2u8, 2u8, 1u8],
            seq![1u8, 2u8, 2u8, 3u8, 2u8, 2u8, 1u8],
            seq![1u8, 2u8, 2u8, 2u8, 2u8, 2u8, 1u8],
            seq![1u8, 2u8, 2u8, 2u8, 2u8, 2u8, 1u8],
            seq![0u8, 1u8, 1u8, 1u8, 1u8, 1u8, 0u8],
        ],
        seq![
            seq![0u8, 1u8, 1u8, 1u8, 1u8, 0u8, 0u8],
            seq![1u8, 2u8, 2u8, 2u8, 1u8, 0u8, 0u8],
            seq![1u8, 2u8, 2u8, 2u8, 1u8, 1u8, 0u8],
            seq![1u8, 2u8, 2u8, 3u8, 2u8, 2u8, 1u8],
            seq![1u8, 1u8, 1u8, 2u8, 2u8, 2u8, 1u8],
            seq![0u8, 0u8, 1u8, 2u8, 2u8, 2u8, 1u8],
            seq![0u8, 0u8, 1u8, 1u8, 1u8, 1u8, 0u8],
        ],
        seq![
            seq![0u8, 0u8, 0u8, 1u8, 1u8, 1u8, 0u8],
            seq![0u8, 0u8, 1u8, 2u8, 2u8, 2u8, 1u8],
            seq![0u8, 1u8, 1u8, 2u8, 2u8, 2u8, 1u8],
            seq![1u8, 2u8, 2u8, 3u8, 2u8, 2u8, 1u8],
            seq![1u8, 2u8, 2u8, 2u8, 1u8, 1u8, 0u8],
            seq![1u8, 2u8, 2u8, 2u8, 1u8, 0u8, 0u8],
            seq![0u8, 1u8, 1u8, 1u8, 0u8, 0u8, 0u8],
        ],
        seq![
            seq![0u8, 1u8, 1u8, 1u8, 1u8, 1u8, 0u8],
            seq![1u8, 2u8, 2u8, 2u8, 2u8, 2u8, 1u8],
            seq![0u8, 1u8, 1u8, 2u8, 1u8, 1u8, 0u8],
            seq![0u8, 0u8, 1u8, 3u8, 1u8, 0u8, 0u8],
            seq![0u8, 1u8, 1u8, 2u8, 1u8, 1u8, 0u8],
            seq![1u8, 2u8, 2u8, 2u8, 2u8, 2u8, 1u8],
            seq![0u8, 1u8, 1u8, 1u8, 1u8, 1u8, 0u8],
        ],
        seq![
            seq![0u8, 1u8, 0u8, 0u8, 0u8, 1u8, 0u8],
            seq![1u8, 2u8, 1u8, 0u8, 1u8, 2u8, 1u8],
            seq![1u8, 2u8, 1u8, 1u8, 1u8, 2u8, 1u8],
            seq![1u8, 2u8, 2u8, 3u8, 2u8, 2u8, 1u8],
            seq![1u8, 2u8, 1u8, 1u8, 1u8, 2u8, 1u8],
            seq![1u8, 2u8, 1u8, 0u8, 1u8, 2u8, 1u8],
            seq![0u8, 1u8, 0u8, 0u8, 0u8, 1u8, 0u8],
        ],
        seq![
            seq![0u8, 1u8, 1u8, 1u8, 0u8],
            seq![1u8, 2u8, 2u8, 2u8, 1u8],
            seq![1u8, 2u8, 2u8, 2u8, 1u8],
            seq![1u8, 2u8, 3u8, 2u8, 1u8],
            seq![1u8, 2u8, 2u8, 2u8, 1u8],
            seq![1u8, 2u8, 2u8, 2u8, 1u8],
            seq![0u8, 1u8, 1u8, 1u8, 0u8],
        ],
        seq![
            seq![0u8, 1u8, 1u8, 1u8, 1u8, 1u8, 0u8],
            seq![1u8, 2u8, 2u8, 2u8, 2u8, 2u8, 1u8],
            seq![1u8, 2u8, 2u8, 3u8, 2u8, 2u8, 1u8],
            seq![1u8, 2u8, 2u8, 2u8, 2u8, 2u8, 1u8],
            seq![0u8, 1u8, 1u8, 1u8, 1u8, 1u8, 0u8],
        ],
        seq![
            seq![0u8, 0u8, 0u8, 1u8, 1u8, 1u8, 0u8],
            seq![0u8, 0u8, 1u8, 2u8, 2u8, 2u8, 1u8],
            seq![0u8, 0u8, 1u8, 2u8, 1u8, 1u8, 0u8],
            seq![0u8, 0u8, 1u8, 3u8, 1u8, 0u8, 0u8],
            seq![0u8, 1u8, 1u8, 2u8, 1u8, 0u8, 0u8],
            seq![1u8, 2u8, 2u8, 2u8, 1u8, 0u8, 0u8],
            seq![0u8, 1u8, 1u8, 1u8, 0u8, 0u8, 0u8],
        ],
        seq![
            seq![0u8, 1u8, 1u8, 1u8, 0u8, 0u8, 0u8],
            seq![1u8, 2u8, 2u8, 2u8, 1u8, 0u8, 0u8],
            seq![0u8, 1u8, 1u8, 2u8, 1u8, 0u8, 0u8],
            seq![0u8, 0u8, 1u8, 3u8, 1u8, 0u8, 0u8],
            seq![0u8, 0u8, 1u8, 2u8, 1u8, 1u8, 0u8],
            seq![0u8, 0u8, 1u8, 2u8, 2u8, 2u8, 1u8],
            seq![0u8, 0u8, 1u8, 1u8, 1u8, 1u8, 0u8],
        ],
        seq![
            seq![0u8, 1u8, 0u8, 0u8, 0u8, 0u8, 0u8],
            seq![1u8, 2u8, 1u8, 0u8, 0u8, 0u8, 0u8],
            seq![1u8, 2u8, 1u8, 1u8, 1u8, 1u8, 0u8],
            seq![1u8, 2u8, 2u8, 3u8, 2u8, 2u8, 1u8],
            seq![0u8, 1u8, 1u8, 1u8, 1u8, 2u8, 1u8],
            seq![0u8, 0u8, 0u8, 0u8, 1u8, 2u8, 1u8],
            seq![0u8, 0u8, 0u8, 0u8, 0u8, 1u8, 0u8],
        ],
        seq![
            seq![0u8, 0u8, 0u8, 0u8, 0u8, 1u8, 0u8],
            seq![0u8, 0u8, 0u8, 0u8, 1u8, 2u8, 1u8],
            seq![0u8, 1u8, 1u8, 1u8, 1u8, 2u8, 1u8],
            seq![1u8, 2u8, 2u8, 3u8, 2u8, 2u8, 1u8],
            seq![1u8, 2u8, 1u8, 1u8, 1u8, 1u8, 0u8],
            seq![1u8, 2u8, 1u8, 0u8, 0u8, 0u8, 0u8],
            seq![0u8, 1u8, 0u8, 0u8, 0u8, 0u8, 0u8],
        ],
        seq![
            seq![0u8, 0u8, 0u8, 1u8, 1u8, 1u8, 0u8],
            seq![0u8, 0u8, 1u8, 2u8, 2u8, 2u8, 1u8],
            seq![0u8, 1u8, 1u8, 3u8, 1u8, 1u8, 0u8],
            seq![1u8, 2u8, 2u8, 2u8, 1u8, 0u8, 0u8],
            seq![0u8, 1u8, 1u8, 1u8, 0u8, 0u8, 0u8],
        ],
        seq![
            seq![0u8, 1u8, 1u8, 1u8, 0u8, 0u8, 0u8],
            seq![1u8, 2u8, 2u8, 2u8, 1u8, 0u8, 0u8],
            seq![0u8, 1u8, 1u8, 3u8, 1u8, 1u8, 0u8],
            seq![0u8, 0u8, 1u8, 2u8, 2u8, 2u8, 1u8],
            seq![0u8, 0u8, 1u8, 1u8, 1u8, 1u8, 0u8],
        ],
        seq![
            seq![0u8, 1u8, 0u8, 0u8, 0u8],
            seq![1u8, 2u8, 0u8, 0u8, 0u8],
            seq![1u8, 2u8, 1u8, 1u8, 0u8],
            seq![1u8, 2u8, 3u8, 2u8, 1u8],
            seq![0u8, 1u8, 1u8, 2u8, 1u8],
            seq![0u8, 0u8, 0u8, 2u8, 1u8],
            seq![0u8, 0u8, 0u8, 1u8, 0u8],
        ],
        seq![
            seq![0u8, 0u8, 0u8, 0u8, 0u8, 1u8, 0u8],
            seq![0u8, 0u8, 0u8, 0u8, 1u8, 2u8, 1u8],
            seq![0u8, 1u8, 1u8, 1u8, 1u8, 2u8, 1u8],
            seq![1u8, 2u8, 2u8, 3u8, 2u8, 2u8, 1u8],
            seq![1u8, 2u8, 1u8, 1u8, 1u8, 1u8, 0u8],
            seq![1u8, 2u8, 1u8, 0u8, 0u8, 0u8, 0u8],
            seq![0u8, 1u8, 0u8, 0u8, 0u8, 0u8, 0u8],
        ],
        seq![
            seq![0u8, 1u8, 1u8, 1u8, 0u8],
            seq![1u8, 2u8, 2u8, 2u8, 1u8],
            seq![1u8, 2u8, 3u8, 2u8, 1u8],
            seq![1u8, 2u8, 2u8, 2u8, 1u8],
            seq![0u8, 1u8, 1u8, 1u8, 0u8],
        ],
        seq![
            seq![0u8, 1u8, 1u8, 1u8, 1u8, 1u8, 0u8],
            seq![1u8, 2u8, 2u8, 3u8, 2u8, 2u8, 1u8],
            seq![0u8, 1u8, 1u8, 1u8, 1u8, 1u8, 0u8],
        ],
        seq![
            seq![0u8, 1u8, 0u8],
            seq![1u8, 2u8, 1u8],
            seq![1u8, 2u8, 1u8],
            seq![1u8, 3u8, 1u8],
            seq![1u8, 2u8, 1u8],
            seq![1u8, 2u8, 1u8],
            seq![0u8, 1u8, 0u8],
        ],
        seq![
            seq![0u8, 1u8, 1u8, 1u8, 0u8],
            seq![1u8, 2u8, 3u8, 2u8, 1u8],
            seq![0u8, 1u8, 1u8, 1u8, 0u8],
        ],
        seq![
            seq![0u8, 1u8, 0u8],
            seq![1u8, 2u8, 1u8],
            seq![1u8, 3u8, 1u8],
            seq![1u8, 2u8, 1u8],
            seq![0u8, 1u8, 0u8],
        ],
        seq![
            seq![0u8, 1u8, 0u8],
            seq![1u8, 3u8, 1u8],
            seq![0u8, 1u8, 0u8],
        ],
    ]
}

/// Appends a well-formed template to the catalog.
fn push_pattern(list: &mut Vec<Pattern>, p: Pattern)
    requires
        pattern_wf(p.deep_view()),
        pattern_centered(p.deep_view()),
        forall|k: int|
            0 <= k < old(list)@.len() ==> pattern_wf(#[trigger] old(list).deep_view()[k]),
        forall|k: int|
            0 <= k < old(list)@.len() ==> pattern_centered(#[trigger] old(list).deep_view()[k]),
    ensures
        final(list)@.len() == old(list)@.len() + 1,
        final(list).deep_view() == old(list).deep_view().push(p.deep_view()),
        forall|k: int|
            0 <= k < final(list)@.len() ==> pattern_wf(#[trigger] final(list).deep_view()[k]),
        forall|k: int|
            0 <= k < final(list)@.len() ==> pattern_centered(#[trigger] final(list).deep_view()[k]),
{
    let ghost pv = p.deep_view();
    let ghost prev = list.deep_view();
    list.push(p);
    proof {
        assert(list.deep_view() =~= prev.push(pv));
        assert forall|k: int| 0 <= k < list@.len() implies pattern_wf(
            #[trigger] list.deep_view()[k],
        ) && pattern_centered(list.deep_view()[k]) by {
            if k < prev.len() {
                assert(list.deep_view()[k] == prev[k]);
            } else {
                assert(list.deep_view()[k] == pv);
            }
        }
    }
}

/// Builds the template catalog, most important pattern first: the matcher
/// always prefers the earliest entry that fits.
pub fn create_patterns() -> (r: Vec<Pattern>)
    ensures
        r.deep_view() == pattern_catalog(),
        r@.len() == 21,
        forall|k: int| 0 <= k < r@.len() ==> pattern_wf(#[trigger] r.deep_view()[k]),
        forall|k: int| 0 <= k < r@.len() ==> pattern_centered(#[trigger] r.deep_view()[k]),
{
    let mut pattern_list: Vec<Pattern> = Vec::new();

    // A free 3x3 block with the center in its middle.
    {
        let pattern: Pattern = vec![
            vec![0, 1, 1, 1, 1, 1, 0],
            vec![1, 2, 2, 2, 2, 2, 1],
            vec![1, 2, 2, 2, 2, 2, 1],
            vec![1, 2, 2, 3, 2, 2, 1],
            vec![1, 2, 2, 2, 2, 2, 1],
            vec![1, 2, 2, 2, 2, 2, 1],
            vec![0, 1, 1, 1, 1, 1, 0],
        ];
        assert(pattern.deep_view()[3][3] == 3);
        assert(pattern.deep_view() =~~= pattern_catalog()[0]);
        assert(pattern_centered(pattern.deep_view()));
        push_pattern(&mut pattern_list, pattern);
        assert(pattern_list.deep_view() =~~= pattern_catalog().take(1));
    }

    // A 2x2 block stepped down to the right.
    {
        let pattern: Pattern = vec![
            vec![0, 1, 1, 1, 1, 0, 0],
            vec![1, 2, 2, 2, 1, 0, 0],
            vec![1, 2, 2, 2, 1, 1, 0],
            vec![1, 2, 2, 3, 2, 2, 1],
            vec![1, 1, 1, 2, 2, 2, 1],
            vec![0, 0, 1, 2, 2, 2, 1],
            vec![0, 0, 1, 1, 1, 1, 0],
        ];
        assert(pattern.deep_view()[3][3] == 3);
        assert(pattern.deep_view() =~~= pattern_catalog()[1]);
        assert(pattern_centered(pattern.deep_view()));
        push_pattern(&mut pattern_list, pattern);
        assert(pattern_list.deep_view() =~~= pattern_catalog().take(2));
    }

    // A 2x2 block stepped up to the right.
    {
        let pattern: Pattern = vec![
            vec![0, 0, 0, 1, 1, 1, 0],
            vec![0, 0, 1, 2, 2, 2, 1],
            vec![0, 1, 1, 2, 2, 2, 1],
            vec![1, 2, 2, 3, 2, 2, 1],
            vec![1, 2, 2, 2, 1, 1, 0],
            vec![1, 2, 2, 2, 1, 0, 0],
            vec![0, 1, 1, 1, 0, 0, 0],
        ];
        assert(pattern.deep_view()[3][3] == 3);
        assert(pattern.deep_view() =~~= pattern_catalog()[2]);
        assert(pattern_centered(pattern.deep_view()));
        push_pattern(&mut pattern_list, pattern);
        assert(pattern_list.deep_view() =~~= pattern_catalog().take(3));
    }

    // Two 1x3 rows bridged through their middle.
    {
        let pattern: Pattern = vec![
            vec![0, 1, 1, 1, 1, 1, 0],
            vec![1, 2, 2, 2, 2, 2, 1],
            vec![0, 1, 1, 2, 1, 1, 0],
            vec![0, 0, 1, 3, 1, 0, 0],
            vec![0, 1, 1, 2, 1, 1, 0],
            vec![1, 2, 2, 2, 2, 2, 1],
            vec![0, 1, 1, 1, 1, 1, 0],
        ];
        assert(pattern.deep_view()[3][3] == 3);
        assert(pattern.deep_view() =~~= pattern_catalog()[3]);
        assert(pattern_centered(pattern.deep_view()));
        push_pattern(&mut pattern_list, pattern);
        assert(pattern_list.deep_view() =~~= pattern_catalog().take(4));
    }

    // Two 3x1 columns flanking the center.
    {
        let pattern: Pattern = vec![
            vec![0, 1, 0, 0, 0, 1, 0],
            vec![1, 2, 1, 0, 1, 2, 1],
            vec![1, 2, 1, 1, 1, 2, 1],
            vec![1, 2, 2, 3, 2, 2, 1],
            vec![1, 2, 1, 1, 1, 2, 1],
            vec![1, 2, 1, 0, 1, 2, 1],
            vec![0, 1, 0, 0, 0, 1, 0],
        ];
        assert(pattern.deep_view()[3][3] == 3);
        assert(pattern.deep_view() =~~= pattern_catalog()[4]);
        assert(pattern_centered(pattern.deep_view()));
        push_pattern(&mut pattern_list, pattern);
        assert(pattern_list.deep_view() =~~= pattern_catalog().take(5));
    }

    // A free 2x3 block, center between its middle cells.
    {
        let pattern: Pattern = vec![
            vec![0, 1, 1, 1, 0],
            vec![1, 2, 2, 2, 1],
            vec![1, 2, 2, 2, 1],
            vec![1, 2, 3, 2, 1],
            vec![1, 2, 2, 2, 1],
            vec![1, 2, 2, 2, 1],
            vec![0, 1, 1, 1, 0],
        ];
        assert(pattern.deep_view()[3][2] == 3);
        assert(pattern.deep_view() =~~= pattern_catalog()[5]);
        assert(pattern_centered(pattern.deep_view()));
        push_pattern(&mut pattern_list, pattern);
        assert(pattern_list.deep_view() =~~= pattern_catalog().take(6));
    }

    // A free 3x2 block, center between its middle cells.
    {
        let pattern: Pattern = vec![
            vec![0, 1, 1, 1, 1, 1, 0],
            vec![1, 2, 2, 2, 2, 2, 1],
            vec![1, 2, 2, 3, 2, 2, 1],
            vec![1, 2, 2, 2, 2, 2, 1],
            vec![0, 1, 1, 1, 1, 1, 0],
        ];
        assert(pattern.deep_view()[2][3] == 3);
        assert(pattern.deep_view() =~~= pattern_catalog()[6]);
        assert(pattern_centered(pattern.deep_view()));
        push_pattern(&mut pattern_list, pattern);
        assert(pattern_list.deep_view() =~~= pattern_catalog().take(7));
    }

    // Two diagonal 2x1 rows bridged down to the left.
    {
        let pattern: Pattern = vec![
            vec![0, 0, 0, 1, 1, 1, 0],
            vec![0, 0, 1, 2, 2, 2, 1],
            vec![0, 0, 1, 2, 1, 1, 0],
            vec![0, 0, 1, 3, 1, 0, 0],
            vec![0, 1, 1, 2, 1, 0, 0],
            vec![1, 2, 2, 2, 1, 0, 0],
            vec![0, 1, 1, 1, 0, 0, 0],
        ];
        assert(pattern.deep_view()[3][3] == 3);
        assert(pattern.deep_view() =~~= pattern_catalog()[7]);
        assert(pattern_centered(pattern.deep_view()));
        push_pattern(&mut pattern_list, pattern);
        assert(pattern_list.deep_view() =~~= pattern_catalog().take(8));
    }

    // Two diagonal 2x1 rows bridged down to the right.
    {
        let pattern: Pattern = vec![
            vec![0, 1, 1, 1, 0, 0, 0],
            vec![1, 2, 2, 2, 1, 0, 0],
            vec![0, 1, 1, 2, 1, 0, 0],
            vec![0, 0, 1, 3, 1, 0, 0],
            vec![0, 0, 1, 2, 1, 1, 0],
            vec![0, 0, 1, 2, 2, 2, 1],
            vec![0, 0, 1, 1, 1, 1, 0],
        ];
        assert(pattern.deep_view()[3][3] == 3);
        assert(pattern.deep_view() =~~= pattern_catalog()[8]);
        assert(pattern_centered(pattern.deep_view()));
        push_pattern(&mut pattern_list, pattern);
        assert(pattern_list.deep_view() =~~= pattern_catalog().take(9));
    }

    // A single cell up-left, a row through the center, a single cell
    // down-right.
    {
        let pattern: Pattern = vec![
            vec![0, 1, 0, 0, 0, 0, 0],
            vec![1, 2, 1, 0, 0, 0, 0],
            vec![1, 2, 1, 1, 1, 1, 0],
            vec![1, 2, 2, 3, 2, 2, 1],
            vec![0, 1, 1, 1, 1, 2, 1],
            vec![0, 0, 0, 0, 1, 2, 1],
            vec![0, 0, 0, 0, 0, 1, 0],
        ];
        assert(pattern.deep_view()[3][3] == 3);
        assert(pattern.deep_view() =~~= pattern_catalog()[9]);
        assert(pattern_centered(pattern.deep_view()));
        push_pattern(&mut pattern_list, pattern);
        assert(pattern_list.deep_view() =~~= pattern_catalog().take(10));
    }

    // A single cell down-left, a row through the center, a single cell
    // up-right.
    {
        let pattern: Pattern = vec![
            vec![0, 0, 0, 0, 0, 1, 0],
            vec![0, 0, 0, 0, 1, 2, 1],
            vec![0, 1, 1, 1, 1, 2, 1],
            vec![1, 2, 2, 3, 2, 2, 1],
            vec![1, 2, 1, 1, 1, 1, 0],
            vec![1, 2, 1, 0, 0, 0, 0],
            vec![0, 1, 0, 0, 0, 0, 0],
        ];
        assert(pattern.deep_view()[3][3] == 3);
        assert(pattern.deep_view() =~~= pattern_catalog()[10]);
        assert(pattern_centered(pattern.deep_view()));
        push_pattern(&mut pattern_list, pattern);
        assert(pattern_list.deep_view() =~~= pattern_catalog().take(11));
    }

    // Two 2x1 rows offset around the center.
    {
        let pattern: Pattern = vec![
            vec![0, 0, 0, 1, 1, 1, 0],
            vec![0, 0, 1, 2, 2, 2, 1],
            vec![0, 1, 1, 3, 1, 1, 0],
            vec![1, 2, 2, 2, 1, 0, 0],
            vec![0, 1, 1, 1, 0, 0, 0],
        ];
        assert(pattern.deep_view()[2][3] == 3);
        assert(pattern.deep_view() =~~= pattern_catalog()[11]);
        assert(pattern_centered(pattern.deep_view()));
        push_pattern(&mut pattern_list, pattern);
        assert(pattern_list.deep_view() =~~= pattern_catalog().take(12));
    }

    // Two 2x1 rows offset the other way around the center.
    {
        let pattern: Pattern = vec![
            vec![0, 1, 1, 1, 0, 0, 0],
            vec![1, 2, 2, 2, 1, 0, 0],
            vec![0, 1, 1, 3, 1, 1, 0],
            vec![0, 0, 1, 2, 2, 2, 1],
            vec![0, 0, 1, 1, 1, 1, 0],
        ];
        assert(pattern.deep_view()[2][3] == 3);
        assert(pattern.deep_view() =~~= pattern_catalog()[12]);
        assert(pattern_centered(pattern.deep_view()));
        push_pattern(&mut pattern_list, pattern);
        assert(pattern_list.deep_view() =~~= pattern_catalog().take(13));
    }

    // A 2x1 column and a single cell stepped down.
    {
        let pattern: Pattern = vec![
            vec![0, 1, 0, 0, 0],
            vec![1, 2, 0, 0, 0],
            vec![1, 2, 1, 1, 0],
            vec![1, 2, 3, 2, 1],
            vec![0, 1, 1, 2, 1],
            vec![0, 0, 0, 2, 1],
            vec![0, 0, 0, 1, 0],
        ];
        assert(pattern.deep_view()[3][2] == 3);
        assert(pattern.deep_view() =~~= pattern_catalog()[13]);
        assert(pattern_centered(pattern.deep_view()));
        push_pattern(&mut pattern_list, pattern);
        assert(pattern_list.deep_view() =~~= pattern_catalog().take(14));
    }

    // A single cell and a 2x1 column stepped up.
    {
        let pattern: Pattern = vec![
            vec![0, 0, 0, 0, 0, 1, 0],
            vec![0, 0, 0, 0, 1, 2, 1],
            vec![0, 1, 1, 1, 1, 2, 1],
            vec![1, 2, 2, 3, 2, 2, 1],
            vec![1, 2, 1, 1, 1, 1, 0],
            vec![1, 2, 1, 0, 0, 0, 0],
            vec![0, 1, 0, 0, 0, 0, 0],
        ];
        assert(pattern.deep_view()[3][3] == 3);
        assert(pattern.deep_view() =~~= pattern_catalog()[14]);
        assert(pattern_centered(pattern.deep_view()));
        push_pattern(&mut pattern_list, pattern);
        assert(pattern_list.deep_view() =~~= pattern_catalog().take(15));
    }

    // A free 2x2 block with the center in its middle.
    {
        let pattern: Pattern = vec![
            vec![0, 1, 1, 1, 0],
            vec![1, 2, 2, 2, 1],
            vec![1, 2, 3, 2, 1],
            vec![1, 2, 2, 2, 1],
            vec![0, 1, 1, 1, 0],
        ];
        assert(pattern.deep_view()[2][2] == 3);
        assert(pattern.deep_view() =~~= pattern_catalog()[15]);
        assert(pattern_centered(pattern.deep_view()));
        push_pattern(&mut pattern_list, pattern);
        assert(pattern_list.deep_view() =~~= pattern_catalog().take(16));
    }

    // A free 3x1 row.
    {
        let pattern: Pattern = vec![
            vec![0, 1, 1, 1, 1, 1, 0],
            vec![1, 2, 2, 3, 2, 2, 1],
            vec![0, 1, 1, 1, 1, 1, 0],
        ];
        assert(pattern.deep_view()[1][3] == 3);
        assert(pattern.deep_view() =~~= pattern_catalog()[16]);
        assert(pattern_centered(pattern.deep_view()));
        push_pattern(&mut pattern_list, pattern);
        assert(pattern_list.deep_view() =~~= pattern_catalog().take(17));
    }

    // A free 1x3 column.
    {
        let pattern: Pattern = vec![
            vec![0, 1, 0],
            vec![1, 2, 1],
            vec![1, 2, 1],
            vec![1, 3, 1],
            vec![1, 2, 1],
            vec![1, 2, 1],
            vec![0, 1, 0],
        ];
        assert(pattern.deep_view()[3][1] == 3);
        assert(pattern.deep_view() =~~= pattern_catalog()[17]);
        assert(pattern_centered(pattern.deep_view()));
        push_pattern(&mut pattern_list, pattern);
        assert(pattern_list.deep_view() =~~= pattern_catalog().take(18));
    }

    // A free 2x1 row.
    {
        let pattern: Pattern = vec![
            vec![0, 1, 1, 1, 0],
            vec![1, 2, 3, 2, 1],
            vec![0, 1, 1, 1, 0],
        ];
        assert(pattern.deep_view()[1][2] == 3);
        assert(pattern.deep_view() =~~= pattern_catalog()[18]);
        assert(pattern_centered(pattern.deep_view()));
        push_pattern(&mut pattern_list, pattern);
        assert(pattern_list.deep_view() =~~= pattern_catalog().take(19));
    }

    // A free 1x2 column.
    {
        let pattern: Pattern = vec![
            vec![0, 1, 0],
            vec![1, 2, 1],
            vec![1, 3, 1],
            vec![1, 2, 1],
            vec![0, 1, 0],
        ];
        assert(pattern.deep_view()[2][1] == 3);
        assert(pattern.deep_view() =~~= pattern_catalog()[19]);
        assert(pattern_centered(pattern.deep_view()));
        push_pattern(&mut pattern_list, pattern);
        assert(pattern_list.deep_view() =~~= pattern_catalog().take(20));
    }

    // A single free cell.
    {
        let pattern: Pattern = vec![vec![0, 1, 0], vec![1, 3, 1], vec![0, 1, 0]];
        assert(pattern.deep_view()[1][1] == 3);
        assert(pattern.deep_view() =~~= pattern_catalog()[20]);
        assert(pattern_centered(pattern.deep_view()));
        push_pattern(&mut pattern_list, pattern);
        assert(pattern_list.deep_view() =~~= pattern_catalog().take(21));
    }

    proof {
        assert(pattern_catalog().take(21) =~~= pattern_catalog());
        assert(pattern_list.deep_view() == pattern_catalog());
    }
    pattern_list
}

} // verus!
