//! The clearance heuristic that biases candidate selection toward open
//! space, and the enumeration of candidate cells for a new galaxy center.

use vstd::prelude::*;

use crate::space::DotPos;
use crate::space::DotSpace;
use crate::space::get_cell;
use crate::space::space_wf;

verus! {

/// One probe of the ring walk: for ring distance `i` and column offset `j`,
/// both cells at row offset `i - |j|` on either side are inside the grid and
/// not occupied (`1`).
pub open spec fn ring_cell_ok(s: Seq<Seq<u8>>, x: int, y: int, i: int, j: int) -> bool {
    let x2 = x + j;
    let d = i - (if j >= 0 {
        j
    } else {
        -j
    });
    &&& 0 <= x2 < s.len()
    &&& 0 <= y - d < s[x2].len()
    &&& s[x2][y - d] != 1
    &&& y + d < s[x2].len()
    &&& s[x2][y + d] != 1
}

/// The cell has the requested clearance: every probe of every ring at
/// distance `1 .. span` stays inside the grid and finds no occupied cell.
pub open spec fn ring_clear(s: Seq<Seq<u8>>, x: int, y: int, span: int) -> bool {
    forall|i: int, j: int| 1 <= i < span && -i <= j <= i ==> #[trigger] ring_cell_ok(s, x, y, i, j)
}

/// Computes the binary clearance penalty of a cell: `0` exactly when every
/// ring up to `neighbor_span - 1` is in-bounds and free of occupied cells,
/// `1` as soon as any probed cell is occupied or out of bounds.
pub fn calculate_neighbor_weight(
    space: &DotSpace,
    x: usize,
    y: usize,
    x_size: usize,
    y_size: usize,
    neighbor_span: u16,
) -> (r: u8)
    requires
        space_wf(space.deep_view()),
        x_size == space.deep_view().len(),
        y_size == space.deep_view()[0].len(),
        x < x_size,
        y < y_size,
    ensures
        r == if ring_clear(space.deep_view(), x as int, y as int, neighbor_span as int) {
            0u8
        } else {
            1u8
        },
{
    let ghost s = space.deep_view();
    let span = neighbor_span as usize;
    let mut i: usize = 1;
    while i < span
        invariant
            space_wf(s),
            s == space.deep_view(),
            x_size == s.len(),
            y_size == s[0].len(),
            x < x_size,
            y < y_size,
            span == neighbor_span as usize,
            1 <= i <= span || (i == 1 && span == 0),
            forall|i2: int, j2: int|
                1 <= i2 < i && -i2 <= j2 <= i2 ==> #[trigger] ring_cell_ok(s, x as int, y as int, i2, j2),
        decreases span - i,
    {
        let mut jj: usize = 0;
        while jj < 2 * i + 1
            invariant
                space_wf(s),
                s == space.deep_view(),
                x_size == s.len(),
                y_size == s[0].len(),
                x < x_size,
                y < y_size,
                span == neighbor_span as usize,
                1 <= i < span,
                jj <= 2 * i + 1,
                forall|i2: int, j2: int|
                    1 <= i2 < i && -i2 <= j2 <= i2 ==> #[trigger] ring_cell_ok(s, x as int, y as int, i2, j2),
                forall|j2: int|
                    -(i as int) <= j2 < jj - i ==> #[trigger] ring_cell_ok(s, x as int, y as int, i as int, j2),
            decreases 2 * i + 1 - jj,
        {
            let ghost j2 = jj - (i as int);
            let off: usize = if jj < i {
                i - jj
            } else {
                jj - i
            };
            let ghost d = i - off;

            let x2: usize;
            if jj < i {
                if off > x {
                    assert(!ring_cell_ok(s, x as int, y as int, i as int, j2));
                    return 1;
                }
                x2 = x - off;
            } else {
                if off >= x_size - x {
                    assert(!ring_cell_ok(s, x as int, y as int, i as int, j2));
                    return 1;
                }
                x2 = x + off;
            }
            assert(x2 == x + j2);

            if off > i {
                assert(false);
            }
            let dd: usize = i - off;
            if dd > y {
                assert(!ring_cell_ok(s, x as int, y as int, i as int, j2));
                return 1;
            }
            let y1 = y - dd;
            if get_cell(space, x2, y1) == 1 {
                assert(!ring_cell_ok(s, x as int, y as int, i as int, j2));
                return 1;
            }
            if dd >= y_size - y {
                assert(!ring_cell_ok(s, x as int, y as int, i as int, j2));
                return 1;
            }
            let y2 = y + dd;
            if get_cell(space, x2, y2) == 1 {
                assert(!ring_cell_ok(s, x as int, y as int, i as int, j2));
                return 1;
            }
            assert(ring_cell_ok(s, x as int, y as int, i as int, j2));
            jj = jj + 1;
        }
        i = i + 1;
    }
    assert(ring_clear(s, x as int, y as int, neighbor_span as int));
    0
}

/// True when `(x, y)` may host a new galaxy center at the given clearance:
/// the cell is empty and its surroundings pass the ring test.
pub open spec fn is_dot_candidate(s: Seq<Seq<u8>>, min_d: int, x: int, y: int) -> bool {
    &&& 0 <= x < s.len()
    &&& 0 <= y < s[x].len()
    &&& s[x][y] == 0
    &&& ring_clear(s, x, y, min_d)
}

/// No cell of the grid can host a new galaxy center at the given clearance.
pub open spec fn no_dot_candidates(s: Seq<Seq<u8>>, min_d: int) -> bool {
    forall|x: int, y: int| !(#[trigger] is_dot_candidate(s, min_d, x, y))
}

/// Row-major order on dot positions.
pub open spec fn row_major_lt(a: DotPos, b: DotPos) -> bool {
    a.0 < b.0 || (a.0 == b.0 && a.1 < b.1)
}

/// Lists, in row-major order and without repetition, every empty cell whose
/// clearance penalty at the given minimum distance is zero.
pub fn get_random_dot_candidates(space: &DotSpace, min_distance_to_filled: u16) -> (r: Vec<DotPos>)
    requires
        space_wf(space.deep_view()),
    ensures
        forall|k: int|
            0 <= k < r@.len() ==> is_dot_candidate(
                space.deep_view(),
                min_distance_to_filled as int,
                (#[trigger] r@[k]).0 as int,
                r@[k].1 as int,
            ),
        forall|x: int, y: int|
            is_dot_candidate(space.deep_view(), min_distance_to_filled as int, x, y)
                ==> exists|k: int| 0 <= k < r@.len() && (#[trigger] r@[k]).0 == x && r@[k].1 == y,
        forall|k1: int, k2: int| 0 <= k1 < k2 < r@.len() ==> row_major_lt(r@[k1], r@[k2]),
{
    let ghost s = space.deep_view();
    let ghost d = min_distance_to_filled as int;
    let mut candidates: Vec<DotPos> = Vec::new();
    let x_size = space.len();
    let y_size = space[0].len();
    let mut x: usize = 0;
    while x < x_size
        invariant
            space_wf(s),
            s == space.deep_view(),
            d == min_distance_to_filled as int,
            x_size == s.len(),
            y_size == s[0].len(),
            x <= x_size,
            forall|k: int|
                0 <= k < candidates@.len() ==> is_dot_candidate(
                    s,
                    d,
                    (#[trigger] candidates@[k]).0 as int,
                    candidates@[k].1 as int,
                ),
            forall|k: int|
                0 <= k < candidates@.len() ==> (#[trigger] candidates@[k]).0 < x,
            forall|x2: int, y2: int|
                0 <= x2 < x && is_dot_candidate(s, d, x2, y2) ==> exists|k: int|
                    0 <= k < candidates@.len() && (#[trigger] candidates@[k]).0 == x2
                        && candidates@[k].1 == y2,
            forall|k1: int, k2: int|
                0 <= k1 < k2 < candidates@.len() ==> row_major_lt(candidates@[k1], candidates@[k2]),
        decreases x_size - x,
    {
        let mut y: usize = 0;
        while y < y_size
            invariant
                space_wf(s),
                s == space.deep_view(),
                d == min_distance_to_filled as int,
                x_size == s.len(),
                y_size == s[0].len(),
                x < x_size,
                y <= y_size,
                forall|k: int|
                    0 <= k < candidates@.len() ==> is_dot_candidate(
                        s,
                        d,
                        (#[trigger] candidates@[k]).0 as int,
                        candidates@[k].1 as int,
                    ),
                forall|k: int|
                    0 <= k < candidates@.len() ==> (#[trigger] candidates@[k]).0 < x || (
                    candidates@[k].0 == x && candidates@[k].1 < y),
                forall|x2: int, y2: int|
                    0 <= x2 < x && is_dot_candidate(s, d, x2, y2) ==> exists|k: int|
                        0 <= k < candidates@.len() && (#[trigger] candidates@[k]).0 == x2
                            && candidates@[k].1 == y2,
                forall|y2: int|
                    0 <= y2 < y && is_dot_candidate(s, d, x as int, y2) ==> exists|k: int|
                        0 <= k < candidates@.len() && (#[trigger] candidates@[k]).0 == x as int
                            && candidates@[k].1 == y2,
                forall|k1: int, k2: int|
                    0 <= k1 < k2 < candidates@.len() ==> row_major_lt(
                        candidates@[k1],
                        candidates@[k2],
                    ),
            decreases y_size - y,
        {
            let penalty = calculate_neighbor_weight(
                space,
                x,
                y,
                x_size,
                y_size,
                min_distance_to_filled,
            );
            let ghost prev = candidates@;
            let is_new = get_cell(space, x, y) == 0 && penalty == 0;
            if is_new {
                candidates.push(DotPos(x, y));
            }
            proof {
                assert(is_new <==> is_dot_candidate(s, d, x as int, y as int));
                assert forall|x2: int, y2: int|
                    0 <= x2 < x && is_dot_candidate(s, d, x2, y2) implies exists|k: int|
                    0 <= k < candidates@.len() && (#[trigger] candidates@[k]).0 == x2
                        && candidates@[k].1 == y2 by {
                    let k = choose|k: int|
                        0 <= k < prev.len() && (#[trigger] prev[k]).0 == x2 && prev[k].1 == y2;
                    assert(candidates@[k].0 == x2 && candidates@[k].1 == y2);
                }
                assert forall|y2: int|
                    0 <= y2 < y + 1 && is_dot_candidate(s, d, x as int, y2) implies exists|k: int|
                    0 <= k < candidates@.len() && (#[trigger] candidates@[k]).0 == x as int
                        && candidates@[k].1 == y2 by {
                    if y2 == y {
                        assert(candidates@[prev.len() as int].0 == x as int
                            && candidates@[prev.len() as int].1 == y2);
                    } else {
                        let k = choose|k: int|
                            0 <= k < prev.len() && (#[trigger] prev[k]).0 == x as int && prev[k].1
                                == y2;
                        assert(candidates@[k].0 == x as int && candidates@[k].1 == y2);
                    }
                }
            }
            y = y + 1;
        }
        proof {
            assert forall|x2: int, y2: int|
                0 <= x2 < x + 1 && is_dot_candidate(s, d, x2, y2) implies exists|k: int|
                0 <= k < candidates@.len() && (#[trigger] candidates@[k]).0 == x2
                    && candidates@[k].1 == y2 by {
                if x2 == x {
                    assert(0 <= y2 < y_size && is_dot_candidate(s, d, x as int, y2));
                }
            }
        }
        x = x + 1;
    }
    candidates
}

} // verus!
