//! The grid of cell markers and the basic operations on it.
//!
//! A `DotSpace` is a column-major rectangular array of small markers:
//! `0` empty, `1` occupied, `2` transiently owned by the galaxy currently
//! being grown, `3` only used inside pattern templates for the center cell.

use vstd::prelude::*;

verus! {

/// A galaxy center position on the doubled-resolution grid.
#[derive(PartialEq, Eq, Structural, Clone, Copy, Debug)]
pub struct DotPos(pub usize, pub usize);

/// A column of cell markers.
pub type DotSpaceColumn = Vec<u8>;

/// The whole grid of cell markers, indexed `space[x][y]`.
pub type DotSpace = Vec<DotSpaceColumn>;

/// The grid is a non-empty rectangle: every column has the same length.
pub open spec fn space_wf(s: Seq<Seq<u8>>) -> bool {
    &&& s.len() > 0
    &&& s[0].len() > 0
    &&& forall|x: int| 0 <= x < s.len() ==> (#[trigger] s[x]).len() == s[0].len()
}

/// True when `(x, y)` addresses a cell of the grid.
pub open spec fn in_bounds(s: Seq<Seq<u8>>, x: int, y: int) -> bool {
    0 <= x < s.len() && 0 <= y < s[x].len()
}

/// The grid with one cell overwritten.
pub open spec fn cell_set(s: Seq<Seq<u8>>, x: int, y: int, v: u8) -> Seq<Seq<u8>> {
    s.update(x, s[x].update(y, v))
}

/// Occupancy never recedes from `s1` to `s2`: the shape is unchanged and a
/// cell that is empty afterwards was already empty before.
pub open spec fn occupancy_monotone(s1: Seq<Seq<u8>>, s2: Seq<Seq<u8>>) -> bool {
    &&& s2.len() == s1.len()
    &&& forall|x: int| 0 <= x < s2.len() ==> (#[trigger] s2[x]).len() == s1[x].len()
    &&& forall|x: int, y: int|
        in_bounds(s2, x, y) && (#[trigger] s2[x][y]) == 0 ==> s1[x][y] == 0
}

/// Every difference between `s1` and `s2` is an empty cell that became
/// occupied: the shape is unchanged and a changed cell went from `0` to `1`.
pub open spec fn only_occupies(s1: Seq<Seq<u8>>, s2: Seq<Seq<u8>>) -> bool {
    &&& s2.len() == s1.len()
    &&& forall|x: int| 0 <= x < s2.len() ==> (#[trigger] s2[x]).len() == s1[x].len()
    &&& forall|x: int, y: int|
        in_bounds(s2, x, y) && (#[trigger] s2[x][y]) != s1[x][y] ==> s1[x][y] == 0 && s2[x][y] == 1
}

/// A change that only occupies empty cells advances occupancy and keeps the
/// grid well-formed.
pub proof fn lemma_only_occupies_facts(s1: Seq<Seq<u8>>, s2: Seq<Seq<u8>>)
    requires
        only_occupies(s1, s2),
    ensures
        occupancy_monotone(s1, s2),
        space_wf(s1) ==> space_wf(s2),
{
    assert forall|x: int, y: int|
        in_bounds(s2, x, y) && (#[trigger] s2[x][y]) == 0 implies s1[x][y] == 0 by {
        assert(s2[x][y] == s1[x][y] || (s1[x][y] == 0 && s2[x][y] == 1));
    }
}

/// Half-width of the exclusion zone along one axis: a dot on an odd
/// coordinate sits between cells and forbids a larger area.
pub open spec fn zone_half(c: int) -> int {
    if c % 2 == 1 {
        2
    } else {
        1
    }
}

/// True when `(x, y)` lies in the exclusion zone of a dot at `(dx, dy)`.
pub open spec fn in_zone(dx: int, dy: int, x: int, y: int) -> bool {
    &&& dx - zone_half(dx) <= x <= dx + zone_half(dx)
    &&& dy - zone_half(dy) <= y <= dy + zone_half(dy)
}

/// The grid after marking a dot's exclusion zone: every in-bounds empty cell
/// of the zone takes the filler value, every other cell is unchanged.
pub open spec fn mark_spec(s: Seq<Seq<u8>>, dx: int, dy: int, filler: u8) -> Seq<Seq<u8>> {
    Seq::new(
        s.len(),
        |x: int|
            Seq::new(
                s[x].len(),
                |y: int|
                    if in_zone(dx, dy, x, y) && s[x][y] == 0 {
                        filler
                    } else {
                        s[x][y]
                    },
            ),
    )
}

/// The set of cells that a marking call with a non-zero filler overwrites.
pub open spec fn marked_cells(s: Seq<Seq<u8>>, dx: int, dy: int) -> Set<(int, int)> {
    Set::new(
        |p: (int, int)| in_bounds(s, p.0, p.1) && in_zone(dx, dy, p.0, p.1) && s[p.0][p.1] == 0,
    )
}

/// How many cells of the column are empty (hold `0`).
pub open spec fn count_empty_col(col: Seq<u8>) -> int
    decreases col.len(),
{
    if col.len() == 0 {
        0
    } else {
        count_empty_col(col.drop_last()) + if col.last() == 0 {
            1int
        } else {
            0int
        }
    }
}

/// How many cells of the whole grid are empty.
pub open spec fn count_empty(s: Seq<Seq<u8>>) -> int
    decreases s.len(),
{
    if s.len() == 0 {
        0
    } else {
        count_empty(s.drop_last()) + count_empty_col(s.last())
    }
}

pub proof fn lemma_count_col_bounds(col: Seq<u8>)
    ensures
        0 <= count_empty_col(col) <= col.len(),
    decreases col.len(),
{
    if col.len() > 0 {
        lemma_count_col_bounds(col.drop_last());
    }
}

pub proof fn lemma_count_bounds(s: Seq<Seq<u8>>)
    ensures
        0 <= count_empty(s),
    decreases s.len(),
{
    if s.len() > 0 {
        lemma_count_bounds(s.drop_last());
        lemma_count_col_bounds(s.last());
    }
}

proof fn lemma_count_col_all_empty(col: Seq<u8>)
    requires
        forall|y: int| 0 <= y < col.len() ==> col[y] == 0,
    ensures
        count_empty_col(col) == col.len(),
    decreases col.len(),
{
    if col.len() > 0 {
        assert forall|y: int| 0 <= y < col.drop_last().len() implies col.drop_last()[y] == 0 by {
            assert(col[y] == 0);
        }
        lemma_count_col_all_empty(col.drop_last());
    }
}

/// A fully empty rectangular grid has as many empty cells as cells.
pub proof fn lemma_count_all_empty(s: Seq<Seq<u8>>, m: int)
    requires
        m >= 0,
        forall|x: int| 0 <= x < s.len() ==> (#[trigger] s[x]).len() == m,
        forall|x: int, y: int| in_bounds(s, x, y) ==> (#[trigger] s[x][y]) == 0,
    ensures
        count_empty(s) == s.len() * m,
    decreases s.len(),
{
    if s.len() == 0 {
    } else {
        let n = s.len() - 1;
        assert forall|x: int, y: int|
            in_bounds(s.drop_last(), x, y) implies (#[trigger] s.drop_last()[x][y]) == 0 by {
            assert(s[x].len() == m);
            assert(s[x][y] == 0);
        }
        lemma_count_all_empty(s.drop_last(), m);
        assert forall|y: int| 0 <= y < s.last().len() implies s.last()[y] == 0 by {
            assert(s[n][y] == 0);
        }
        lemma_count_col_all_empty(s.last());
        assert((s.len() - 1) * m + m == s.len() * m) by (nonlinear_arith);
    }
}

proof fn lemma_count_col_zero(col: Seq<u8>)
    ensures
        count_empty_col(col) == 0 <==> (forall|y: int| 0 <= y < col.len() ==> col[y] != 0),
    decreases col.len(),
{
    if col.len() > 0 {
        lemma_count_col_zero(col.drop_last());
        lemma_count_col_bounds(col.drop_last());
        if count_empty_col(col) == 0 {
            assert forall|y: int| 0 <= y < col.len() implies col[y] != 0 by {
                if y < col.len() - 1 {
                    assert(col.drop_last()[y] == col[y]);
                }
            }
        } else {
            if col.last() != 0 {
                let y = choose|y: int| 0 <= y < col.len() - 1 && col.drop_last()[y] == 0;
                assert(col[y] == 0);
            }
        }
    }
}

/// The grid is fully occupied exactly when its empty-cell count is zero.
pub proof fn lemma_count_zero(s: Seq<Seq<u8>>)
    ensures
        count_empty(s) == 0 <==> (forall|x: int, y: int| in_bounds(s, x, y) ==> s[x][y] != 0),
    decreases s.len(),
{
    if s.len() > 0 {
        let n = s.len() - 1;
        lemma_count_zero(s.drop_last());
        lemma_count_col_zero(s.last());
        lemma_count_bounds(s.drop_last());
        lemma_count_col_bounds(s.last());
        if count_empty(s) == 0 {
            assert forall|x: int, y: int| in_bounds(s, x, y) implies s[x][y] != 0 by {
                if x < n {
                    assert(in_bounds(s.drop_last(), x, y));
                    assert(s.drop_last()[x][y] != 0);
                } else {
                    assert(s.last()[y] != 0);
                }
            }
        } else {
            if count_empty(s.drop_last()) != 0 {
                let (x, y) = choose|x: int, y: int|
                    in_bounds(s.drop_last(), x, y) && s.drop_last()[x][y] == 0;
                assert(in_bounds(s, x, y) && s[x][y] == 0);
            } else {
                let y = choose|y: int| 0 <= y < s.last().len() && s.last()[y] == 0;
                assert(in_bounds(s, n, y) && s[n][y] == 0);
            }
        }
    }
}

proof fn lemma_count_col_le(c1: Seq<u8>, c2: Seq<u8>)
    requires
        c2.len() == c1.len(),
        forall|y: int| 0 <= y < c2.len() && (#[trigger] c2[y]) == 0 ==> c1[y] == 0,
    ensures
        count_empty_col(c2) <= count_empty_col(c1),
    decreases c1.len(),
{
    if c1.len() > 0 {
        assert forall|y: int|
            0 <= y < c2.drop_last().len() && (#[trigger] c2.drop_last()[y]) == 0 implies c1.drop_last()[y]
            == 0 by {
            assert(c2[y] == 0);
        }
        lemma_count_col_le(c1.drop_last(), c2.drop_last());
    }
}

proof fn lemma_count_col_lt(c1: Seq<u8>, c2: Seq<u8>, yw: int)
    requires
        c2.len() == c1.len(),
        forall|y: int| 0 <= y < c2.len() && (#[trigger] c2[y]) == 0 ==> c1[y] == 0,
        0 <= yw < c1.len(),
        c1[yw] == 0,
        c2[yw] != 0,
    ensures
        count_empty_col(c2) < count_empty_col(c1),
    decreases c1.len(),
{
    assert forall|y: int|
        0 <= y < c2.drop_last().len() && (#[trigger] c2.drop_last()[y]) == 0 implies c1.drop_last()[y]
        == 0 by {
        assert(c2[y] == 0);
    }
    if yw == c1.len() - 1 {
        lemma_count_col_le(c1.drop_last(), c2.drop_last());
    } else {
        lemma_count_col_lt(c1.drop_last(), c2.drop_last(), yw);
    }
}

/// If occupancy only advanced, the empty-cell count did not grow.
pub proof fn lemma_count_le(s1: Seq<Seq<u8>>, s2: Seq<Seq<u8>>)
    requires
        occupancy_monotone(s1, s2),
    ensures
        count_empty(s2) <= count_empty(s1),
    decreases s1.len(),
{
    if s1.len() > 0 {
        let n = s1.len() - 1;
        assert(occupancy_monotone(s1.drop_last(), s2.drop_last())) by {
            assert forall|x: int, y: int|
                in_bounds(s2.drop_last(), x, y) && (#[trigger] s2.drop_last()[x][y]) == 0
                implies s1.drop_last()[x][y] == 0 by {
                assert(s2[x].len() == s1[x].len());
                assert(s2[x][y] == 0);
            }
        }
        lemma_count_le(s1.drop_last(), s2.drop_last());
        assert forall|y: int|
            0 <= y < s2.last().len() && (#[trigger] s2.last()[y]) == 0 implies s1.last()[y] == 0 by {
            assert(s2[n][y] == 0);
        }
        assert(s2.last().len() == s1.last().len());
        lemma_count_col_le(s1.last(), s2.last());
    }
}

/// If moreover one cell went from empty to occupied, the count shrank.
pub proof fn lemma_count_lt(s1: Seq<Seq<u8>>, s2: Seq<Seq<u8>>, xw: int, yw: int)
    requires
        occupancy_monotone(s1, s2),
        in_bounds(s1, xw, yw),
        s1[xw][yw] == 0,
        s2[xw][yw] != 0,
    ensures
        count_empty(s2) < count_empty(s1),
    decreases s1.len(),
{
    let n = s1.len() - 1;
    assert(occupancy_monotone(s1.drop_last(), s2.drop_last())) by {
        assert forall|x: int, y: int|
            in_bounds(s2.drop_last(), x, y) && (#[trigger] s2.drop_last()[x][y]) == 0
            implies s1.drop_last()[x][y] == 0 by {
            assert(s2[x].len() == s1[x].len());
            assert(s2[x][y] == 0);
        }
    }
    assert forall|y: int|
        0 <= y < s2.last().len() && (#[trigger] s2.last()[y]) == 0 implies s1.last()[y] == 0 by {
        assert(s2[n][y] == 0);
    }
    assert(s2.last().len() == s1.last().len());
    if xw == n {
        lemma_count_le(s1.drop_last(), s2.drop_last());
        lemma_count_col_lt(s1.last(), s2.last(), yw);
    } else {
        lemma_count_lt(s1.drop_last(), s2.drop_last(), xw, yw);
        lemma_count_col_le(s1.last(), s2.last());
    }
}

/// Shape and content facts about a marking, read off its definition.
pub proof fn lemma_mark_spec_facts(s: Seq<Seq<u8>>, dx: int, dy: int, filler: u8)
    ensures
        mark_spec(s, dx, dy, filler).len() == s.len(),
        forall|x: int|
            0 <= x < s.len() ==> (#[trigger] mark_spec(s, dx, dy, filler)[x]).len() == s[x].len(),
        forall|x: int, y: int|
            in_bounds(s, x, y) ==> (#[trigger] mark_spec(s, dx, dy, filler)[x][y]) == (
            if in_zone(dx, dy, x, y) && s[x][y] == 0 {
                filler
            } else {
                s[x][y]
            }),
        filler != 0 ==> occupancy_monotone(s, mark_spec(s, dx, dy, filler)),
        space_wf(s) ==> space_wf(mark_spec(s, dx, dy, filler)),
{
    let m = mark_spec(s, dx, dy, filler);
    assert(forall|x: int| 0 <= x < s.len() ==> (#[trigger] m[x]).len() == s[x].len());
}

/// Marking an in-bounds empty dot cell with a non-zero filler strictly
/// decreases the number of empty cells.
pub proof fn lemma_mark_spec_count(s: Seq<Seq<u8>>, dx: int, dy: int, filler: u8)
    requires
        filler != 0,
        in_bounds(s, dx, dy),
        s[dx][dy] == 0,
    ensures
        count_empty(mark_spec(s, dx, dy, filler)) < count_empty(s),
{
    let m = mark_spec(s, dx, dy, filler);
    lemma_mark_spec_facts(s, dx, dy, filler);
    assert(in_zone(dx, dy, dx, dy));
    assert(m[dx][dy] == filler);
    lemma_count_lt(s, m, dx, dy);
}

/// Exclusivity of occupancy markings: whenever occupancy only advanced
/// between the grid a first dot was marked on and the grid a second dot is
/// marked on, the sets of cells the two markings overwrite are disjoint.
/// This is the strongest form that holds of the generator: the geometric
/// zones of two dots may overlap, and a center on odd coordinates is never
/// itself occupancy-marked; only the cells a marking actually writes are
/// exclusive.
pub proof fn lemma_marking_exclusive(
    s1: Seq<Seq<u8>>,
    d1x: int,
    d1y: int,
    f1: u8,
    s2: Seq<Seq<u8>>,
    d2x: int,
    d2y: int,
)
    requires
        f1 != 0,
        occupancy_monotone(mark_spec(s1, d1x, d1y, f1), s2),
    ensures
        marked_cells(s1, d1x, d1y).disjoint(marked_cells(s2, d2x, d2y)),
{
    let m1 = mark_spec(s1, d1x, d1y, f1);
    lemma_mark_spec_facts(s1, d1x, d1y, f1);
    assert forall|p: (int, int)| marked_cells(s1, d1x, d1y).contains(p) implies !marked_cells(
        s2,
        d2x,
        d2y,
    ).contains(p) by {
        assert(m1[p.0][p.1] == f1);
        assert(s2[p.0][p.1] != 0);
    }
    assert(marked_cells(s1, d1x, d1y).disjoint(marked_cells(s2, d2x, d2y)));
}

/// Occupancy monotonicity composes across successive operations.
pub proof fn lemma_monotone_trans(a: Seq<Seq<u8>>, b: Seq<Seq<u8>>, c: Seq<Seq<u8>>)
    requires
        occupancy_monotone(a, b),
        occupancy_monotone(b, c),
    ensures
        occupancy_monotone(a, c),
{
    assert forall|x: int, y: int|
        in_bounds(c, x, y) && (#[trigger] c[x][y]) == 0 implies a[x][y] == 0 by {
        assert(b[x].len() == a[x].len());
        assert(b[x][y] == 0);
    }
}

/// Reads one cell of the grid.
pub fn get_cell(space: &DotSpace, x: usize, y: usize) -> (r: u8)
    requires
        x < space.deep_view().len(),
        y < space.deep_view()[x as int].len(),
    ensures
        r == space.deep_view()[x as int][y as int],
{
    proof {
        assert(space@[x as int].deep_view() =~= space@[x as int]@);
    }
    space[x][y]
}

/// Overwrites one cell of the grid.
pub fn set_cell(space: &mut DotSpace, x: usize, y: usize, v: u8)
    requires
        x < old(space)@.len(),
        y < old(space).deep_view()[x as int].len(),
    ensures
        final(space).deep_view() == cell_set(old(space).deep_view(), x as int, y as int, v),
{
    let ghost o = space.deep_view();
    proof {
        assert(space@[x as int].deep_view() =~= space@[x as int]@);
    }
    space[x][y] = v;
    assert(space.deep_view() =~~= cell_set(o, x as int, y as int, v));
}

/// Marks as `filler` every currently-empty cell in the exclusion zone of
/// `dot`; the zone extends further along an axis on which the dot's
/// coordinate is odd. Out-of-range offsets are skipped.
pub fn mark_as_occupied(space: &mut DotSpace, dot: &DotPos, filler: u8)
    requires
        space_wf(old(space).deep_view()),
        dot.0 <= usize::MAX - 2,
        dot.1 <= usize::MAX - 2,
    ensures
        final(space).deep_view() == mark_spec(
            old(space).deep_view(),
            dot.0 as int,
            dot.1 as int,
            filler,
        ),
{
    let ghost o = old(space).deep_view();
    let ghost m = mark_spec(o, dot.0 as int, dot.1 as int, filler);
    proof {
        lemma_mark_spec_facts(o, dot.0 as int, dot.1 as int, filler);
    }
    let x_size = space.len();
    let y_size = space[0].len();

    let x_diff: usize = if dot.0 % 2 == 1 {
        2
    } else {
        1
    };
    let y_diff: usize = if dot.1 % 2 == 1 {
        2
    } else {
        1
    };

    let lo_x: usize = if dot.0 >= x_diff {
        dot.0 - x_diff
    } else {
        0
    };
    let hi_x: usize = if dot.0 + x_diff < x_size {
        dot.0 + x_diff
    } else {
        x_size - 1
    };
    let lo_y: usize = if dot.1 >= y_diff {
        dot.1 - y_diff
    } else {
        0
    };
    let hi_y: usize = if dot.1 + y_diff < y_size {
        dot.1 + y_diff
    } else {
        y_size - 1
    };

    if lo_x > hi_x || lo_y > hi_y {
        proof {
            assert forall|xx: int, yy: int| in_bounds(o, xx, yy) implies (#[trigger] m[xx][yy])
                == o[xx][yy] by {
            }
            assert(space.deep_view() =~~= m);
        }
        return ;
    }
    let mut x = lo_x;
    while x <= hi_x
        invariant
            space_wf(o),
            o.len() == x_size,
            o[0].len() == y_size,
            m == mark_spec(o, dot.0 as int, dot.1 as int, filler),
            x_diff == zone_half(dot.0 as int),
            y_diff == zone_half(dot.1 as int),
            lo_x <= x <= hi_x + 1,
            lo_y <= hi_y,
            hi_x < x_size,
            hi_y < y_size,
            lo_x == if dot.0 >= x_diff { dot.0 - x_diff } else { 0 },
            hi_x == if dot.0 + x_diff < x_size { (dot.0 + x_diff) as int } else { (x_size - 1) as int },
            lo_y == if dot.1 >= y_diff { dot.1 - y_diff } else { 0 },
            hi_y == if dot.1 + y_diff < y_size { (dot.1 + y_diff) as int } else { (y_size - 1) as int },
            space.deep_view().len() == o.len(),
            forall|xx: int|
                0 <= xx < o.len() ==> (#[trigger] space.deep_view()[xx]).len() == o[xx].len(),
            forall|xx: int, yy: int|
                in_bounds(o, xx, yy) && xx < x ==> (#[trigger] space.deep_view()[xx][yy])
                    == m[xx][yy],
            forall|xx: int, yy: int|
                in_bounds(o, xx, yy) && xx >= x ==> (#[trigger] space.deep_view()[xx][yy])
                    == o[xx][yy],
        decreases hi_x + 1 - x,
    {
        let mut y = lo_y;
        while y <= hi_y
            invariant
                space_wf(o),
                o.len() == x_size,
                o[0].len() == y_size,
                m == mark_spec(o, dot.0 as int, dot.1 as int, filler),
                x_diff == zone_half(dot.0 as int),
                y_diff == zone_half(dot.1 as int),
                lo_x <= x <= hi_x,
                hi_x < x_size,
                hi_y < y_size,
                lo_y <= y <= hi_y + 1,
                lo_x == if dot.0 >= x_diff { dot.0 - x_diff } else { 0 },
                hi_x == if dot.0 + x_diff < x_size { (dot.0 + x_diff) as int } else { (x_size - 1) as int },
                lo_y == if dot.1 >= y_diff { dot.1 - y_diff } else { 0 },
                hi_y == if dot.1 + y_diff < y_size { (dot.1 + y_diff) as int } else { (y_size - 1) as int },
                space.deep_view().len() == o.len(),
                forall|xx: int|
                    0 <= xx < o.len() ==> (#[trigger] space.deep_view()[xx]).len() == o[xx].len(),
                forall|xx: int, yy: int|
                    in_bounds(o, xx, yy) && xx < x ==> (#[trigger] space.deep_view()[xx][yy])
                        == m[xx][yy],
                forall|xx: int, yy: int|
                    in_bounds(o, xx, yy) && xx > x ==> (#[trigger] space.deep_view()[xx][yy])
                        == o[xx][yy],
                forall|yy: int|
                    0 <= yy < y_size && yy < y ==> (#[trigger] space.deep_view()[x as int][yy])
                        == m[x as int][yy],
                forall|yy: int|
                    0 <= yy < y_size && yy >= y ==> (#[trigger] space.deep_view()[x as int][yy])
                        == o[x as int][yy],
            decreases hi_y + 1 - y,
        {
            let ghost before = space.deep_view();
            assert(in_zone(dot.0 as int, dot.1 as int, x as int, y as int));
            let cur = get_cell(space, x, y);
            if cur == 0 {
                set_cell(space, x, y, filler);
                proof {
                    assert forall|xx: int|
                        0 <= xx < o.len() implies (#[trigger] space.deep_view()[xx]).len()
                        == o[xx].len() by {
                        assert(space.deep_view()[xx] == cell_set(
                            before,
                            x as int,
                            y as int,
                            filler,
                        )[xx]);
                    }
                }
            }
            y = y + 1;
        }
        proof {
            assert forall|yy: int|
                0 <= yy < y_size && yy < y implies (#[trigger] space.deep_view()[x as int][yy])
                == m[x as int][yy] by {}
            assert forall|yy: int|
                0 <= yy < y_size implies (#[trigger] space.deep_view()[x as int][yy]) == m[x
                as int][yy] by {
                if yy > hi_y || yy < lo_y {
                    assert(!in_zone(dot.0 as int, dot.1 as int, x as int, yy));
                    assert(m[x as int][yy] == o[x as int][yy]);
                }
            }
        }
        x = x + 1;
    }
    proof {
        assert forall|xx: int, yy: int| in_bounds(o, xx, yy) implies (
        #[trigger] space.deep_view()[xx][yy]) == m[xx][yy] by {
            if xx >= x {
                assert(xx > hi_x || xx < lo_x);
                assert(!in_zone(dot.0 as int, dot.1 as int, xx, yy));
                assert(m[xx][yy] == o[xx][yy]);
            }
        }
        assert(space.deep_view() =~~= m);
    }
}

/// Counts the empty cells of the grid.
pub fn count_empty_spots(space: &DotSpace) -> (r: usize)
    requires
        space_wf(space.deep_view()),
        space.deep_view().len() * space.deep_view()[0].len() <= usize::MAX,
    ensures
        r == count_empty(space.deep_view()),
{
    let ghost s = space.deep_view();
    let x_size = space.len();
    let y_size = space[0].len();
    let mut total: usize = 0;
    let mut x: usize = 0;
    proof {
        assert(s.take(0) =~~= Seq::<Seq<u8>>::empty());
    }
    while x < x_size
        invariant
            space_wf(s),
            s == space.deep_view(),
            x_size == s.len(),
            y_size == s[0].len(),
            x_size * y_size <= usize::MAX,
            x <= x_size,
            total == count_empty(s.take(x as int)),
            total <= x * y_size,
        decreases x_size - x,
    {
        let ghost col = s[x as int];
        let mut col_count: usize = 0;
        let mut y: usize = 0;
        proof {
            assert(col.take(0) =~~= Seq::<u8>::empty());
        }
        while y < y_size
            invariant
                space_wf(s),
                s == space.deep_view(),
                x < s.len(),
                col == s[x as int],
                y_size == col.len(),
                y <= y_size,
                col_count == count_empty_col(col.take(y as int)),
                col_count <= y,
            decreases y_size - y,
        {
            if get_cell(space, x, y) == 0 {
                col_count = col_count + 1;
            }
            proof {
                assert(col.take(y + 1).drop_last() =~~= col.take(y as int));
                assert(col.take(y + 1).last() == col[y as int]);
            }
            y = y + 1;
        }
        proof {
            assert(col.take(y_size as int) =~~= col);
            assert(s.take(x + 1).drop_last() =~~= s.take(x as int));
            assert(s.take(x + 1).last() == col);
            assert((x + 1) * y_size == x * y_size + y_size) by (nonlinear_arith);
            assert((x + 1) * y_size <= x_size * y_size) by (nonlinear_arith)
                requires
                    x + 1 <= x_size,
                    y_size >= 0,
            ;
        }
        total = total + col_count;
        x = x + 1;
    }
    proof {
        assert(s.take(x_size as int) =~~= s);
    }
    total
}

/// The grid enlarged by a one-cell border of the filler value on every side.
pub open spec fn bordered(s: Seq<Seq<u8>>, filler: u8) -> Seq<Seq<u8>> {
    Seq::new(
        s.len() + 2,
        |x: int|
            Seq::new(
                s[0].len() + 2,
                |y: int|
                    if x == 0 || x == s.len() + 1 || y == 0 || y == s[0].len() + 1 {
                        filler
                    } else {
                        s[x - 1][y - 1]
                    },
            ),
    )
}

/// A column that holds the filler value everywhere.
pub fn filler_line(n: usize, filler: u8) -> (r: DotSpaceColumn)
    ensures
        r@.len() == n,
        forall|y: int| 0 <= y < n ==> r@[y] == filler,
{
    let mut line: DotSpaceColumn = Vec::new();
    let mut i: usize = 0;
    while i < n
        invariant
            i <= n,
            line@.len() == i,
            forall|y: int| 0 <= y < i ==> line@[y] == filler,
        decreases n - i,
    {
        line.push(filler);
        i = i + 1;
    }
    line
}

/// Returns a copy of the grid surrounded by a one-cell ring of the filler
/// value, so that probing positions overhanging the boundary reads as
/// occupied. The input grid is not changed.
pub fn add_border(space: &DotSpace, filler: u8) -> (r: DotSpace)
    requires
        space_wf(space.deep_view()),
        space.deep_view().len() <= usize::MAX - 2,
        space.deep_view()[0].len() <= usize::MAX - 2,
    ensures
        r.deep_view() == bordered(space.deep_view(), filler),
        space_wf(r.deep_view()),
{
    let ghost s = space.deep_view();
    let ghost b = bordered(s, filler);
    let x_size = space.len();
    let y_size = space[0].len();

    let mut new_space: DotSpace = Vec::new();
    new_space.push(filler_line(y_size + 2, filler));
    proof {
        assert(new_space.deep_view()[0] =~= b[0]);
        assert(new_space.deep_view()[0] == b[0]);
    }

    let mut x: usize = 0;
    while x < x_size
        invariant
            space_wf(s),
            s == space.deep_view(),
            b == bordered(s, filler),
            x_size == s.len(),
            y_size == s[0].len(),
            x_size <= usize::MAX - 2,
            y_size <= usize::MAX - 2,
            x <= x_size,
            new_space.deep_view().len() == x + 1,
            forall|xx: int| 0 <= xx < x + 1 ==> (#[trigger] new_space.deep_view()[xx]) == b[xx],
        decreases x_size - x,
    {
        let mut line: DotSpaceColumn = Vec::new();
        line.push(filler);
        let mut y: usize = 0;
        while y < y_size
            invariant
                space_wf(s),
                s == space.deep_view(),
                x < s.len(),
                y_size == s[0].len(),
                y <= y_size,
                line@.len() == y + 1,
                line@[0] == filler,
                forall|yy: int| 1 <= yy < y + 1 ==> line@[yy] == s[x as int][yy - 1],
            decreases y_size - y,
        {
            line.push(get_cell(space, x, y));
            y = y + 1;
        }
        line.push(filler);
        let ghost prev_dv = new_space.deep_view();
        let ghost line_v = line@;
        new_space.push(line);
        proof {
            assert forall|xx: int| 0 <= xx < x + 2 implies (#[trigger] new_space.deep_view()[xx])
                == b[xx] by {
                if xx < x + 1 {
                    assert(new_space.deep_view()[xx] == prev_dv[xx]);
                } else {
                    assert(new_space.deep_view()[xx] =~= line_v);
                    assert(line_v =~= b[xx]);
                }
            }
        }
        x = x + 1;
    }
    let ghost prev_dv = new_space.deep_view();
    new_space.push(filler_line(y_size + 2, filler));
    proof {
        assert(new_space.deep_view()[x_size + 1] =~= b[x_size + 1]);
        assert forall|xx: int| 0 <= xx < x_size + 2 implies (#[trigger] new_space.deep_view()[xx])
            == b[xx] by {
            if xx < x_size + 1 {
                assert(new_space.deep_view()[xx] == prev_dv[xx]);
            } else {
                assert(new_space.deep_view()[xx] =~= b[xx]);
            }
        }
        assert(new_space.deep_view() =~~= b);
    }
    new_space
}

} // verus!
