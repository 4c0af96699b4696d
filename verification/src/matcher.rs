//! The pattern matcher: scans the bordered grid in row-major order and
//! resolves the first position/pattern combination that fits.

use vstd::prelude::*;

use crate::err::GenError;
use crate::patterns::Pattern;
use crate::patterns::pattern_centered;
use crate::patterns::pattern_wf;
use crate::space::DotPos;
use crate::space::DotSpace;
use crate::space::space_wf;

verus! {

/// One probe of a template cell against the bordered grid: the aligned grid
/// cell exists, and a don't-care cell always fits, a must-be-occupied cell
/// needs `1`, a must-be-empty cell (`2` or the center `3`) needs `0`.
pub open spec fn matches_cell(
    b: Seq<Seq<u8>>,
    p: Seq<Seq<u8>>,
    x: int,
    y: int,
    px: int,
    py: int,
) -> bool {
    &&& 0 <= x + px < b.len()
    &&& 0 <= y + py < b[x + px].len()
    &&& (p[px][py] == 0 || (p[px][py] == 1 && b[x + px][y + py] == 1) || (p[px][py] >= 2 && b[x
        + px][y + py] == 0))
}

/// The template fits at anchor `(x, y)` of the bordered grid: every template
/// cell probe succeeds.
pub open spec fn pattern_matches_at(b: Seq<Seq<u8>>, p: Seq<Seq<u8>>, x: int, y: int) -> bool {
    forall|px: int, py: int|
        0 <= px < p.len() && 0 <= py < p[0].len() ==> #[trigger] matches_cell(b, p, x, y, px, py)
}

/// Scan priority: anchors in row-major order, and patterns in catalog order
/// at equal anchors.
pub open spec fn scan_earlier(x1: int, y1: int, k1: int, x2: int, y2: int, k2: int) -> bool {
    x1 < x2 || (x1 == x2 && (y1 < y2 || (y1 == y2 && k1 < k2)))
}

/// `(x, y, k)` is the first anchor/pattern combination of the scan that
/// fits: it fits, and nothing scanned earlier does.
pub open spec fn is_first_match(
    b: Seq<Seq<u8>>,
    pats: Seq<Seq<Seq<u8>>>,
    x: int,
    y: int,
    k: int,
) -> bool {
    &&& 0 <= x < b.len()
    &&& 0 <= y < b[0].len()
    &&& 0 <= k < pats.len()
    &&& pattern_matches_at(b, pats[k], x, y)
    &&& forall|x2: int, y2: int, k2: int|
        0 <= x2 < b.len() && 0 <= y2 < b[0].len() && 0 <= k2 < pats.len() && scan_earlier(
            x2,
            y2,
            k2,
            x,
            y,
            k,
        ) ==> !(#[trigger] pattern_matches_at(b, pats[k2], x2, y2))
}

/// Decides whether the template fits at the given anchor of the bordered
/// grid.
fn pattern_matches(bspace: &DotSpace, pattern: &Pattern, x: usize, y: usize) -> (r: bool)
    requires
        space_wf(bspace.deep_view()),
        pattern_wf(pattern.deep_view()),
    ensures
        r == pattern_matches_at(bspace.deep_view(), pattern.deep_view(), x as int, y as int),
{
    let ghost b = bspace.deep_view();
    let ghost p = pattern.deep_view();
    let bx = bspace.len();
    let by = bspace[0].len();
    let px_size = pattern.len();
    let py_size = pattern[0].len();
    let mut px: usize = 0;
    while px < px_size
        invariant
            space_wf(b),
            b == bspace.deep_view(),
            space_wf(p),
            p == pattern.deep_view(),
            bx == b.len(),
            by == b[0].len(),
            px_size == p.len(),
            py_size == p[0].len(),
            px <= px_size,
            forall|px2: int, py2: int|
                0 <= px2 < px && 0 <= py2 < py_size ==> #[trigger] matches_cell(
                    b,
                    p,
                    x as int,
                    y as int,
                    px2,
                    py2,
                ),
        decreases px_size - px,
    {
        let mut py: usize = 0;
        while py < py_size
            invariant
                space_wf(b),
                b == bspace.deep_view(),
                space_wf(p),
                p == pattern.deep_view(),
                bx == b.len(),
                by == b[0].len(),
                px_size == p.len(),
                py_size == p[0].len(),
                px < px_size,
                py <= py_size,
                forall|px2: int, py2: int|
                    0 <= px2 < px && 0 <= py2 < py_size ==> #[trigger] matches_cell(
                        b,
                        p,
                        x as int,
                        y as int,
                        px2,
                        py2,
                    ),
                forall|py2: int|
                    0 <= py2 < py ==> #[trigger] matches_cell(b, p, x as int, y as int, px as int, py2),
            decreases py_size - py,
        {
            if x >= bx || px >= bx - x || y >= by || py >= by - y {
                assert(!matches_cell(b, p, x as int, y as int, px as int, py as int));
                return false;
            }
            let x2 = x + px;
            let y2 = y + py;
            let pv = crate::space::get_cell(pattern, px, py);
            let bv = crate::space::get_cell(bspace, x2, y2);
            let fits = pv == 0 || (pv == 1 && bv == 1) || (pv >= 2 && bv == 0);
            if !fits {
                assert(!matches_cell(b, p, x as int, y as int, px as int, py as int));
                return false;
            }
            assert(matches_cell(b, p, x as int, y as int, px as int, py as int));
            py = py + 1;
        }
        px = px + 1;
    }
    true
}

/// Finds the first anchor/pattern combination of the row-major scan that
/// fits anywhere on the bordered grid, or reports that none does.
pub fn find_first_match(bspace: &DotSpace, pattern_list: &Vec<Pattern>) -> (r: Option<
    (usize, usize, usize),
>)
    requires
        space_wf(bspace.deep_view()),
        forall|k: int|
            0 <= k < pattern_list@.len() ==> pattern_wf(#[trigger] pattern_list.deep_view()[k]),
    ensures
        match r {
            Some((x, y, k)) => is_first_match(
                bspace.deep_view(),
                pattern_list.deep_view(),
                x as int,
                y as int,
                k as int,
            ),
            None => forall|x: int, y: int, k: int|
                0 <= x < bspace.deep_view().len() && 0 <= y < bspace.deep_view()[0].len() && 0 <= k
                    < pattern_list@.len() ==> !(#[trigger] pattern_matches_at(
                    bspace.deep_view(),
                    pattern_list.deep_view()[k],
                    x,
                    y,
                )),
        },
{
    let ghost b = bspace.deep_view();
    let ghost pats = pattern_list.deep_view();
    let bx = bspace.len();
    let by = bspace[0].len();
    let n = pattern_list.len();
    let mut x: usize = 0;
    while x < bx
        invariant
            space_wf(b),
            b == bspace.deep_view(),
            pats == pattern_list.deep_view(),
            forall|k: int| 0 <= k < pats.len() ==> pattern_wf(#[trigger] pats[k]),
            bx == b.len(),
            by == b[0].len(),
            n == pats.len(),
            x <= bx,
            forall|x2: int, y2: int, k2: int|
                0 <= x2 < x && 0 <= y2 < by && 0 <= k2 < n ==> !(#[trigger] pattern_matches_at(
                    b,
                    pats[k2],
                    x2,
                    y2,
                )),
        decreases bx - x,
    {
        let mut y: usize = 0;
        while y < by
            invariant
                space_wf(b),
                b == bspace.deep_view(),
                pats == pattern_list.deep_view(),
                forall|k: int| 0 <= k < pats.len() ==> pattern_wf(#[trigger] pats[k]),
                bx == b.len(),
                by == b[0].len(),
                n == pats.len(),
                x < bx,
                y <= by,
                forall|x2: int, y2: int, k2: int|
                    0 <= x2 < x && 0 <= y2 < by && 0 <= k2 < n ==> !(#[trigger] pattern_matches_at(
                        b,
                        pats[k2],
                        x2,
                        y2,
                    )),
                forall|y2: int, k2: int|
                    0 <= y2 < y && 0 <= k2 < n ==> !(#[trigger] pattern_matches_at(
                        b,
                        pats[k2],
                        x as int,
                        y2,
                    )),
            decreases by - y,
        {
            let mut k: usize = 0;
            while k < n
                invariant
                    space_wf(b),
                    b == bspace.deep_view(),
                    pats == pattern_list.deep_view(),
                    forall|k2: int| 0 <= k2 < pats.len() ==> pattern_wf(#[trigger] pats[k2]),
                    bx == b.len(),
                    by == b[0].len(),
                    n == pats.len(),
                    x < bx,
                    y < by,
                    k <= n,
                    forall|x2: int, y2: int, k2: int|
                        0 <= x2 < x && 0 <= y2 < by && 0 <= k2 < n ==> !(#[trigger] pattern_matches_at(
                            b,
                            pats[k2],
                            x2,
                            y2,
                        )),
                    forall|y2: int, k2: int|
                        0 <= y2 < y && 0 <= k2 < n ==> !(#[trigger] pattern_matches_at(
                            b,
                            pats[k2],
                            x as int,
                            y2,
                        )),
                    forall|k2: int|
                        0 <= k2 < k ==> !(#[trigger] pattern_matches_at(
                            b,
                            pats[k2],
                            x as int,
                            y as int,
                        )),
                decreases n - k,
            {
                let pat = &pattern_list[k];
                proof {
                    assert(pattern_wf(pats[k as int]));
                    assert(pat.deep_view() == pats[k as int]);
                }
                if pattern_matches(bspace, pat, x, y) {
                    return Some((x, y, k));
                }
                k = k + 1;
            }
            y = y + 1;
        }
        x = x + 1;
    }
    None
}

/// The grid after marking the exclusion zones of a list of dot cells, in
/// list order.
pub open spec fn mark_cells(s: Seq<Seq<u8>>, cells: Seq<(int, int)>, filler: u8) -> Seq<Seq<u8>>
    decreases cells.len(),
{
    if cells.len() == 0 {
        s
    } else {
        crate::space::mark_spec(
            mark_cells(s, cells.drop_last(), filler),
            cells.last().0,
            cells.last().1,
            filler,
        )
    }
}

/// The template cells of row `px` before column `py_end` that a match at
/// bordered anchor `(ax, ay)` turns into occupancy markings: must-be-empty
/// cells whose unbordered coordinates are both even.
pub open spec fn pattern_mark_in_row(
    p: Seq<Seq<u8>>,
    ax: int,
    ay: int,
    px: int,
    py_end: int,
) -> Seq<(int, int)>
    decreases py_end,
{
    if py_end <= 0 {
        Seq::empty()
    } else {
        let rest = pattern_mark_in_row(p, ax, ay, px, py_end - 1);
        let cx = ax + px - 1;
        let cy = ay + (py_end - 1) - 1;
        if p[px][py_end - 1] >= 2 && cx % 2 == 0 && cy % 2 == 0 {
            rest.push((cx, cy))
        } else {
            rest
        }
    }
}

/// The occupancy markings of the template rows before `px_end`, in scan
/// order.
pub open spec fn pattern_marks_upto(p: Seq<Seq<u8>>, ax: int, ay: int, px_end: int) -> Seq<
    (int, int),
>
    decreases px_end,
{
    if px_end <= 0 {
        Seq::empty()
    } else {
        pattern_marks_upto(p, ax, ay, px_end - 1) + pattern_mark_in_row(
            p,
            ax,
            ay,
            px_end - 1,
            p[0].len() as int,
        )
    }
}

/// All occupancy markings of a template matched at bordered anchor
/// `(ax, ay)`, in scan order.
pub open spec fn pattern_marks(p: Seq<Seq<u8>>, ax: int, ay: int) -> Seq<(int, int)> {
    pattern_marks_upto(p, ax, ay, p.len() as int)
}

/// The centers of row `px` before column `py_end`, shifted back to
/// unbordered coordinates.
pub open spec fn pattern_dots_in_row(
    p: Seq<Seq<u8>>,
    ax: int,
    ay: int,
    px: int,
    py_end: int,
) -> Seq<(int, int)>
    decreases py_end,
{
    if py_end <= 0 {
        Seq::empty()
    } else {
        let rest = pattern_dots_in_row(p, ax, ay, px, py_end - 1);
        if p[px][py_end - 1] == 3 {
            rest.push((ax + px - 1, ay + (py_end - 1) - 1))
        } else {
            rest
        }
    }
}

/// The centers of the template rows before `px_end`, in scan order.
pub open spec fn pattern_dots_upto(p: Seq<Seq<u8>>, ax: int, ay: int, px_end: int) -> Seq<
    (int, int),
>
    decreases px_end,
{
    if px_end <= 0 {
        Seq::empty()
    } else {
        pattern_dots_upto(p, ax, ay, px_end - 1) + pattern_dots_in_row(
            p,
            ax,
            ay,
            px_end - 1,
            p[0].len() as int,
        )
    }
}

/// All centers of a template matched at bordered anchor `(ax, ay)`, shifted
/// back to unbordered coordinates, in scan order.
pub open spec fn pattern_dots(p: Seq<Seq<u8>>, ax: int, ay: int) -> Seq<(int, int)> {
    pattern_dots_upto(p, ax, ay, p.len() as int)
}

/// The dot list holds exactly the given coordinate pairs, in order.
pub open spec fn dots_match(v: Seq<DotPos>, l: Seq<(int, int)>) -> bool {
    &&& v.len() == l.len()
    &&& forall|i: int|
        0 <= i < v.len() ==> (#[trigger] v[i]).0 == l[i].0 && v[i].1 == l[i].1
}

proof fn lemma_dots_in_row_centered(p: Seq<Seq<u8>>, ax: int, ay: int, px: int, n: int)
    requires
        space_wf(p),
        pattern_centered(p),
        0 <= px < p.len(),
        0 <= n <= p[0].len(),
    ensures
        pattern_dots_in_row(p, ax, ay, px, n).len() == if px == (p.len() - 1) / 2 && n > (p[0].len()
            - 1) / 2 {
            1int
        } else {
            0int
        },
    decreases n,
{
    if n > 0 {
        lemma_dots_in_row_centered(p, ax, ay, px, n - 1);
        assert(p[px][n - 1] == 3 <==> (px == (p.len() - 1) / 2 && n - 1 == (p[0].len() - 1) / 2));
    }
}

proof fn lemma_dots_upto_centered(p: Seq<Seq<u8>>, ax: int, ay: int, m: int)
    requires
        space_wf(p),
        pattern_centered(p),
        0 <= m <= p.len(),
    ensures
        pattern_dots_upto(p, ax, ay, m).len() == if m > (p.len() - 1) / 2 {
            1int
        } else {
            0int
        },
    decreases m,
{
    if m > 0 {
        lemma_dots_upto_centered(p, ax, ay, m - 1);
        lemma_dots_in_row_centered(p, ax, ay, m - 1, p[0].len() as int);
    }
}

/// A template with its single marker at the geometric center contributes
/// exactly one dot wherever it matches.
pub proof fn lemma_pattern_dots_centered(p: Seq<Seq<u8>>, ax: int, ay: int)
    requires
        space_wf(p),
        pattern_centered(p),
    ensures
        pattern_dots(p, ax, ay).len() == 1,
{
    lemma_dots_upto_centered(p, ax, ay, p.len() as int);
}

/// Applies a matched template: marks the exclusion zone of every
/// must-be-empty template cell on even unbordered coordinates, and collects
/// every center cell as a new dot. Returns the dots and whether any cell was
/// marked.
fn apply_pattern(space: &mut DotSpace, pattern: &Pattern, ax: usize, ay: usize) -> (r: (
    Vec<DotPos>,
    bool,
))
    requires
        space_wf(old(space).deep_view()),
        old(space)@.len() <= usize::MAX - 2,
        old(space).deep_view()[0].len() <= usize::MAX - 2,
        pattern_wf(pattern.deep_view()),
        pattern_matches_at(
            crate::space::bordered(old(space).deep_view(), 1),
            pattern.deep_view(),
            ax as int,
            ay as int,
        ),
    ensures
        final(space).deep_view() == mark_cells(
            old(space).deep_view(),
            pattern_marks(pattern.deep_view(), ax as int, ay as int),
            1,
        ),
        r.1 == (pattern_marks(pattern.deep_view(), ax as int, ay as int).len() > 0),
        dots_match(r.0@, pattern_dots(pattern.deep_view(), ax as int, ay as int)),
        crate::space::only_occupies(old(space).deep_view(), final(space).deep_view()),
        r.1 ==> crate::space::count_empty(final(space).deep_view()) < crate::space::count_empty(
            old(space).deep_view(),
        ),
        forall|i: int|
            0 <= i < r.0@.len() ==> (#[trigger] r.0@[i]).0 < old(space)@.len() && r.0@[i].1 < old(
                space,
            ).deep_view()[0].len() && old(space).deep_view()[r.0@[i].0 as int][r.0@[i].1 as int]
                == 0,
{
    let ghost o = space.deep_view();
    let ghost p = pattern.deep_view();
    let ghost b = crate::space::bordered(o, 1);
    let px_size = pattern.len();
    let py_size = pattern[0].len();
    let mut dots: Vec<DotPos> = Vec::new();
    let mut occupied: bool = false;

    let mut px: usize = 0;
    while px < px_size
        invariant
            space_wf(o),
            o == old(space).deep_view(),
            o.len() <= usize::MAX - 2,
            o[0].len() <= usize::MAX - 2,
            pattern_wf(p),
            p == pattern.deep_view(),
            b == crate::space::bordered(o, 1),
            pattern_matches_at(b, p, ax as int, ay as int),
            px_size == p.len(),
            py_size == p[0].len(),
            px <= px_size,
            space.deep_view() == mark_cells(o, pattern_marks_upto(p, ax as int, ay as int, px as int), 1),
            occupied == (pattern_marks_upto(p, ax as int, ay as int, px as int).len() > 0),
            dots_match(dots@, pattern_dots_upto(p, ax as int, ay as int, px as int)),
            crate::space::only_occupies(o, space.deep_view()),
            occupied ==> crate::space::count_empty(space.deep_view()) < crate::space::count_empty(o),
            forall|i: int|
                0 <= i < dots@.len() ==> (#[trigger] dots@[i]).0 < o.len() && dots@[i].1
                    < o[0].len() && o[dots@[i].0 as int][dots@[i].1 as int] == 0,
        decreases px_size - px,
    {
        let mut py: usize = 0;
        proof {
            assert(pattern_mark_in_row(p, ax as int, ay as int, px as int, 0) =~= Seq::empty());
            assert(pattern_dots_in_row(p, ax as int, ay as int, px as int, 0) =~= Seq::empty());
            assert(pattern_marks_upto(p, ax as int, ay as int, px as int) + pattern_mark_in_row(
                p,
                ax as int,
                ay as int,
                px as int,
                0,
            ) =~= pattern_marks_upto(p, ax as int, ay as int, px as int));
            assert(pattern_dots_upto(p, ax as int, ay as int, px as int) + pattern_dots_in_row(
                p,
                ax as int,
                ay as int,
                px as int,
                0,
            ) =~= pattern_dots_upto(p, ax as int, ay as int, px as int));
        }
        while py < py_size
            invariant
                space_wf(o),
                o == old(space).deep_view(),
                o.len() <= usize::MAX - 2,
                o[0].len() <= usize::MAX - 2,
                pattern_wf(p),
                p == pattern.deep_view(),
                b == crate::space::bordered(o, 1),
                pattern_matches_at(b, p, ax as int, ay as int),
                px_size == p.len(),
                py_size == p[0].len(),
                px < px_size,
                py <= py_size,
                space.deep_view() == mark_cells(
                    o,
                    pattern_marks_upto(p, ax as int, ay as int, px as int) + pattern_mark_in_row(
                        p,
                        ax as int,
                        ay as int,
                        px as int,
                        py as int,
                    ),
                    1,
                ),
                occupied == ((pattern_marks_upto(p, ax as int, ay as int, px as int)
                    + pattern_mark_in_row(p, ax as int, ay as int, px as int, py as int)).len()
                    > 0),
                dots_match(
                    dots@,
                    pattern_dots_upto(p, ax as int, ay as int, px as int) + pattern_dots_in_row(
                        p,
                        ax as int,
                        ay as int,
                        px as int,
                        py as int,
                    ),
                ),
                crate::space::only_occupies(o, space.deep_view()),
                occupied ==> crate::space::count_empty(space.deep_view())
                    < crate::space::count_empty(o),
                forall|i: int|
                    0 <= i < dots@.len() ==> (#[trigger] dots@[i]).0 < o.len() && dots@[i].1
                        < o[0].len() && o[dots@[i].0 as int][dots@[i].1 as int] == 0,
            decreases py_size - py,
        {
            let ghost cur_marks = pattern_marks_upto(p, ax as int, ay as int, px as int)
                + pattern_mark_in_row(p, ax as int, ay as int, px as int, py as int);
            let ghost cur_dots = pattern_dots_upto(p, ax as int, ay as int, px as int)
                + pattern_dots_in_row(p, ax as int, ay as int, px as int, py as int);
            proof {
                assert(matches_cell(b, p, ax as int, ay as int, px as int, py as int));
            }
            let pv = crate::space::get_cell(pattern, px, py);
            if pv >= 2 {
                proof {
                    assert(b[ax + px][ay + py] == 0);
                    assert(1 <= ax + px <= o.len());
                    assert(1 <= ay + py <= o[0].len());
                }
                let gx = ax + px - 1;
                let gy = ay + py - 1;
                proof {
                    assert(o[gx as int][gy as int] == b[ax + px][ay + py]);
                    assert(o[gx as int][gy as int] == 0);
                }
                if gx % 2 == 0 && gy % 2 == 0 {
                    let ghost sbefore = space.deep_view();
                    let ghost c = (gx as int, gy as int);
                    proof {
                        crate::space::lemma_only_occupies_facts(o, sbefore);
                        if !occupied {
                            assert(cur_marks.len() == 0);
                            assert(mark_cells(o, cur_marks, 1) == o);
                        }
                    }
                    crate::space::mark_as_occupied(space, &DotPos(gx, gy), 1);
                    proof {
                        crate::space::lemma_mark_spec_facts(sbefore, c.0, c.1, 1);
                        // The fold over the extended mark list is one more
                        // marking applied to the fold so far.
                        let l2 = cur_marks.push(c);
                        assert(l2.drop_last() =~= cur_marks);
                        assert(l2.last() == c);
                        assert(space.deep_view() == mark_cells(o, l2, 1));
                        assert(pattern_mark_in_row(p, ax as int, ay as int, px as int, py + 1)
                            =~= pattern_mark_in_row(p, ax as int, ay as int, px as int, py as int).push(c));
                        assert(pattern_marks_upto(p, ax as int, ay as int, px as int)
                            + pattern_mark_in_row(p, ax as int, ay as int, px as int, py + 1)
                            =~= l2);
                        // Occupancy only advances, and the first marking
                        // strictly shrinks the empty count.
                        assert forall|x2: int, y2: int|
                            crate::space::in_bounds(space.deep_view(), x2, y2) && (
                            #[trigger] space.deep_view()[x2][y2]) != o[x2][y2] implies o[x2][y2]
                            == 0 && space.deep_view()[x2][y2] == 1 by {
                            if space.deep_view()[x2][y2] != sbefore[x2][y2] {
                                assert(sbefore[x2][y2] == 0);
                                assert(crate::space::in_bounds(sbefore, x2, y2));
                            }
                        }
                        if occupied {
                            crate::space::lemma_count_le(sbefore, space.deep_view());
                        } else {
                            assert(sbefore == o);
                            crate::space::lemma_mark_spec_count(o, c.0, c.1, 1);
                        }
                    }
                    occupied = true;
                } else {
                    proof {
                        assert(pattern_mark_in_row(p, ax as int, ay as int, px as int, py + 1)
                            =~= pattern_mark_in_row(p, ax as int, ay as int, px as int, py as int));
                    }
                }
                if pv == 3 {
                    let ghost dprev = dots@;
                    dots.push(DotPos(gx, gy));
                    proof {
                        assert(pattern_dots_in_row(p, ax as int, ay as int, px as int, py + 1)
                            =~= pattern_dots_in_row(p, ax as int, ay as int, px as int, py as int).push(
                            (gx as int, gy as int),
                        ));
                        assert(pattern_dots_upto(p, ax as int, ay as int, px as int)
                            + pattern_dots_in_row(p, ax as int, ay as int, px as int, py + 1)
                            =~= cur_dots.push((gx as int, gy as int)));
                        assert(dots@ =~= dprev.push(DotPos(gx, gy)));
                    }
                } else {
                    proof {
                        assert(pattern_dots_in_row(p, ax as int, ay as int, px as int, py + 1)
                            =~= pattern_dots_in_row(p, ax as int, ay as int, px as int, py as int));
                    }
                }
            } else {
                proof {
                    assert(pattern_mark_in_row(p, ax as int, ay as int, px as int, py + 1)
                        =~= pattern_mark_in_row(p, ax as int, ay as int, px as int, py as int));
                    assert(pattern_dots_in_row(p, ax as int, ay as int, px as int, py + 1)
                        =~= pattern_dots_in_row(p, ax as int, ay as int, px as int, py as int));
                }
            }
            py = py + 1;
        }
        proof {
            assert(pattern_marks_upto(p, ax as int, ay as int, px + 1) == pattern_marks_upto(
                p,
                ax as int,
                ay as int,
                px as int,
            ) + pattern_mark_in_row(p, ax as int, ay as int, px as int, py_size as int));
            assert(pattern_dots_upto(p, ax as int, ay as int, px + 1) == pattern_dots_upto(
                p,
                ax as int,
                ay as int,
                px as int,
            ) + pattern_dots_in_row(p, ax as int, ay as int, px as int, py_size as int));
        }
        px = px + 1;
    }
    (dots, occupied)
}

/// Tries to resolve part of the grid deterministically: builds a bordered
/// copy, looks for the first anchor/pattern combination of the scan that
/// fits, and on a match marks the exclusion zones of the matched
/// must-be-empty cells and returns the matched centers. Returns `Ok(None)`
/// when no pattern fits anywhere, and an error when a match marks no cell.
pub fn generate_next_dots_by_pattern(space: &mut DotSpace, pattern_list: &Vec<Pattern>) -> (r:
    Result<Option<Vec<DotPos>>, GenError>)
    requires
        space_wf(old(space).deep_view()),
        old(space)@.len() <= usize::MAX - 2,
        old(space).deep_view()[0].len() <= usize::MAX - 2,
        forall|k: int|
            0 <= k < pattern_list@.len() ==> pattern_wf(#[trigger] pattern_list.deep_view()[k]),
    ensures
        r matches Ok(None) ==> {
            &&& final(space).deep_view() == old(space).deep_view()
            &&& forall|x: int, y: int, k: int|
                0 <= x < crate::space::bordered(old(space).deep_view(), 1).len() && 0 <= y
                    < crate::space::bordered(old(space).deep_view(), 1)[0].len() && 0 <= k
                    < pattern_list@.len() ==> !(#[trigger] pattern_matches_at(
                    crate::space::bordered(old(space).deep_view(), 1),
                    pattern_list.deep_view()[k],
                    x,
                    y,
                ))
        },
        r matches Ok(Some(dots)) ==> (exists|x: int, y: int, k: int|
            {
                &&& #[trigger] is_first_match(
                    crate::space::bordered(old(space).deep_view(), 1),
                    pattern_list.deep_view(),
                    x,
                    y,
                    k,
                )
                &&& pattern_marks(pattern_list.deep_view()[k], x, y).len() > 0
                &&& dots_match(dots@, pattern_dots(pattern_list.deep_view()[k], x, y))
                &&& final(space).deep_view() == mark_cells(
                    old(space).deep_view(),
                    pattern_marks(pattern_list.deep_view()[k], x, y),
                    1,
                )
            }),
        r matches Ok(Some(dots)) ==> {
            &&& crate::space::count_empty(final(space).deep_view()) < crate::space::count_empty(
                old(space).deep_view(),
            )
            &&& crate::space::only_occupies(old(space).deep_view(), final(space).deep_view())
            &&& forall|i: int|
                0 <= i < dots@.len() ==> (#[trigger] dots@[i]).0 < old(space)@.len() && dots@[i].1
                    < old(space).deep_view()[0].len() && old(space).deep_view()[dots@[i].0 as int][dots@[i].1 as int]
                    == 0
        },
        (forall|k: int|
            0 <= k < pattern_list@.len() ==> pattern_centered(
                #[trigger] pattern_list.deep_view()[k],
            )) ==> (r matches Ok(Some(dots)) ==> dots@.len() == 1),
        r matches Err(e) ==> {
            &&& e == GenError::NothingOccupied
            &&& final(space).deep_view() == old(space).deep_view()
            &&& exists|x: int, y: int, k: int|
                #[trigger] is_first_match(
                    crate::space::bordered(old(space).deep_view(), 1),
                    pattern_list.deep_view(),
                    x,
                    y,
                    k,
                ) && pattern_marks(pattern_list.deep_view()[k], x, y).len() == 0
        },
{
    let ghost o = space.deep_view();
    let ghost pats = pattern_list.deep_view();
    let ghost b = crate::space::bordered(o, 1);

    let tmp_space = crate::space::add_border(space, 1);
    let m = find_first_match(&tmp_space, pattern_list);
    match m {
        None => Ok(None),
        Some((x, y, k)) => {
            let pat = &pattern_list[k];
            proof {
                assert(pat.deep_view() == pats[k as int]);
                assert(pattern_wf(pats[k as int]));
            }
            let (dots, occupied) = apply_pattern(space, pat, x, y);
            proof {
                if forall|k2: int|
                    0 <= k2 < pats.len() ==> pattern_centered(#[trigger] pats[k2]) {
                    lemma_pattern_dots_centered(pats[k as int], x as int, y as int);
                }
            }
            if !occupied {
                proof {
                    assert(pattern_marks(pats[k as int], x as int, y as int).len() == 0);
                    assert(space.deep_view() == o);
                }
                Err(GenError::NothingOccupied)
            } else {
                Ok(Some(dots))
            }
        },
    }
}

} // verus!
