//! The galaxy growth engine: from a chosen center, grows a point-symmetric
//! region by weighted random selection, stopping with a probability that
//! rises as the region outgrows its target size.

use vstd::prelude::*;

use crate::err::GenError;
use crate::rng::random_below;
use crate::space::DotPos;
use crate::space::DotSpace;
use crate::space::cell_set;
use crate::space::count_empty;
use crate::space::get_cell;
use crate::space::in_bounds;
use crate::space::set_cell;
use crate::space::space_wf;
use crate::weight::calculate_neighbor_weight;
use crate::weight::is_dot_candidate;
use crate::weight::get_random_dot_candidates;
use crate::weight::ring_clear;

verus! {

/// `r` is `sqrt(n)` rounded to the nearest integer: `n` lies within half a
/// unit of `r` squared on either side.
pub open spec fn is_rounded_sqrt(n: int, r: int) -> bool {
    if n == 0 {
        r == 0
    } else {
        r >= 1 && r * r - r < n <= r * r + r
    }
}

/// Computes the rounded integer square root by upward search.
pub fn rounded_sqrt(n: u64) -> (r: u64)
    requires
        n <= 0x4000_0100_0000_0000,
    ensures
        is_rounded_sqrt(n as int, r as int),
{
    if n == 0 {
        return 0;
    }
    let mut r: u64 = 1;
    while n > r * r + r
        invariant
            1 <= r <= 0x8000_0100,
            1 <= n <= 0x4000_0100_0000_0000,
            r * r - r < n,
        decreases n - (r * r - r),
    {
        proof {
            assert((r + 1) * (r + 1) - (r + 1) == r * r + r) by (nonlinear_arith);
            assert(r + 1 <= 0x8000_0100) by (nonlinear_arith)
                requires
                    r * r + r < n,
                    n <= 0x4000_0100_0000_0000,
                    r >= 1,
            ;
        }
        r = r + 1;
    }
    r
}

/// The total of a weight list.
pub open spec fn sum_weights(ws: Seq<usize>) -> int
    decreases ws.len(),
{
    if ws.len() == 0 {
        0
    } else {
        sum_weights(ws.drop_last()) + ws.last()
    }
}

proof fn lemma_sum_take_succ(ws: Seq<usize>, i: int)
    requires
        0 <= i < ws.len(),
    ensures
        sum_weights(ws.take(i + 1)) == sum_weights(ws.take(i)) + ws[i],
{
    assert(ws.take(i + 1).drop_last() =~= ws.take(i));
    assert(ws.take(i + 1).last() == ws[i]);
}

proof fn lemma_sum_take_le(ws: Seq<usize>, i: int)
    requires
        0 <= i <= ws.len(),
    ensures
        sum_weights(ws.take(i)) <= sum_weights(ws),
    decreases ws.len() - i,
{
    if i == ws.len() {
        assert(ws.take(i) =~= ws);
    } else {
        lemma_sum_take_succ(ws, i);
        lemma_sum_take_le(ws, i + 1);
    }
}

/// A cell may join the galaxy around `(dx, dy)`: it is an empty cell
/// 4-adjacent to the region under construction, and its point reflection
/// through the center is an empty in-bounds cell too.
pub open spec fn growth_candidate(s: Seq<Seq<u8>>, dx: int, dy: int, x: int, y: int) -> bool {
    &&& in_bounds(s, x, y)
    &&& s[x][y] == 0
    &&& ((x > 0 && s[x - 1][y] == 2) || (x + 1 < s.len() && s[x + 1][y] == 2) || (y > 0 && s[x][y
        - 1] == 2) || (y + 1 < s[x].len() && s[x][y + 1] == 2))
    &&& 0 <= 2 * dx - x < s.len()
    &&& 0 <= 2 * dy - y < s[2 * dx - x].len()
    &&& s[2 * dx - x][2 * dy - y] == 0
}

/// How many tickets a candidate holds in the sampling pool: the larger of
/// the clearance penalties of the cell and of its mirror, scaled into
/// `{1, 5}`: cells near occupied space are preferred.
pub open spec fn growth_weight(s: Seq<Seq<u8>>, dx: int, dy: int, x: int, y: int) -> int {
    let p1: int = if ring_clear(s, x, y, 2) {
        1
    } else {
        5
    };
    let p2: int = if ring_clear(s, 2 * dx - x, 2 * dy - y, 2) {
        1
    } else {
        5
    };
    if p1 >= p2 {
        p1
    } else {
        p2
    }
}

/// Tries to add one point-symmetric pair of cells to the galaxy under
/// construction around `dot`: enumerates every empty cell 4-adjacent to the
/// region whose mirror is empty too, draws one with weight `1` or `5`
/// (larger of the pair's clearance penalties), and marks the drawn cell and
/// its mirror with the transient growth marker. Returns whether a pair was
/// added; `false` means no candidate existed.
pub fn add_field_to_galaxy(
    space: &mut DotSpace,
    dot: &DotPos,
    rng: &mut rand::rngs::ThreadRng,
) -> (r: bool)
    requires
        space_wf(old(space).deep_view()),
        dot.0 < old(space)@.len(),
        dot.1 < old(space).deep_view()[0].len(),
        old(space)@.len() * old(space).deep_view()[0].len() <= usize::MAX / 5,
    ensures
        !r ==> final(space).deep_view() == old(space).deep_view(),
        !r ==> forall|x: int, y: int|
            !(#[trigger] growth_candidate(
                old(space).deep_view(),
                dot.0 as int,
                dot.1 as int,
                x,
                y,
            )),
        r ==> (exists|cx: int, cy: int|
            #[trigger] growth_candidate(old(space).deep_view(), dot.0 as int, dot.1 as int, cx, cy)
                && final(space).deep_view() == cell_set(
                cell_set(old(space).deep_view(), cx, cy, 2),
                2 * (dot.0 as int) - cx,
                2 * (dot.1 as int) - cy,
                2,
            )),
        r ==> count_empty(final(space).deep_view()) < count_empty(old(space).deep_view()),
{
    let ghost o = space.deep_view();
    let ghost d0 = dot.0 as int;
    let ghost d1 = dot.1 as int;
    let x_size = space.len();
    let y_size = space[0].len();
    proof {
        assert(x_size <= x_size * y_size && y_size <= x_size * y_size) by (nonlinear_arith)
            requires
                x_size >= 1,
                y_size >= 1,
        ;
    }

    let mut cands: Vec<DotPos> = Vec::new();
    let mut weights: Vec<usize> = Vec::new();
    let mut total: usize = 0;
    let mut x: usize = 0;
    while x < x_size
        invariant
            space_wf(o),
            o == space.deep_view(),
            d0 == dot.0 as int,
            d1 == dot.1 as int,
            dot.0 < x_size,
            dot.1 < y_size,
            x_size == o.len(),
            y_size == o[0].len(),
            x_size * y_size <= usize::MAX / 5,
            x_size <= usize::MAX / 5,
            y_size <= usize::MAX / 5,
            x <= x_size,
            cands@.len() == weights@.len(),
            forall|k: int|
                0 <= k < cands@.len() ==> growth_candidate(
                    o,
                    d0,
                    d1,
                    (#[trigger] cands@[k]).0 as int,
                    cands@[k].1 as int,
                ),
            forall|k: int|
                0 <= k < cands@.len() ==> (#[trigger] weights@[k]) == growth_weight(
                    o,
                    d0,
                    d1,
                    cands@[k].0 as int,
                    cands@[k].1 as int,
                ),
            forall|k: int| 0 <= k < weights@.len() ==> 1 <= (#[trigger] weights@[k]) <= 5,
            total == sum_weights(weights@),
            cands@.len() <= total <= 5 * cands@.len(),
            cands@.len() <= x * y_size,
            forall|x2: int, y2: int|
                0 <= x2 < x && growth_candidate(o, d0, d1, x2, y2) ==> exists|k: int|
                    0 <= k < cands@.len() && (#[trigger] cands@[k]).0 == x2 && cands@[k].1 == y2,
        decreases x_size - x,
    {
        let mut y: usize = 0;
        while y < y_size
            invariant
                space_wf(o),
                o == space.deep_view(),
                d0 == dot.0 as int,
                d1 == dot.1 as int,
                dot.0 < x_size,
                dot.1 < y_size,
                x_size == o.len(),
                y_size == o[0].len(),
                x_size * y_size <= usize::MAX / 5,
                x_size <= usize::MAX / 5,
                y_size <= usize::MAX / 5,
                x < x_size,
                y <= y_size,
                cands@.len() == weights@.len(),
                forall|k: int|
                    0 <= k < cands@.len() ==> growth_candidate(
                        o,
                        d0,
                        d1,
                        (#[trigger] cands@[k]).0 as int,
                        cands@[k].1 as int,
                    ),
                forall|k: int|
                    0 <= k < cands@.len() ==> (#[trigger] weights@[k]) == growth_weight(
                        o,
                        d0,
                        d1,
                        cands@[k].0 as int,
                        cands@[k].1 as int,
                    ),
                forall|k: int| 0 <= k < weights@.len() ==> 1 <= (#[trigger] weights@[k]) <= 5,
                total == sum_weights(weights@),
                cands@.len() <= total <= 5 * cands@.len(),
                cands@.len() <= x * y_size + y,
                forall|x2: int, y2: int|
                    0 <= x2 < x && growth_candidate(o, d0, d1, x2, y2) ==> exists|k: int|
                        0 <= k < cands@.len() && (#[trigger] cands@[k]).0 == x2 && cands@[k].1
                            == y2,
                forall|y2: int|
                    0 <= y2 < y && growth_candidate(o, d0, d1, x as int, y2) ==> exists|k: int|
                        0 <= k < cands@.len() && (#[trigger] cands@[k]).0 == x as int
                            && cands@[k].1 == y2,
            decreases y_size - y,
        {
            let ghost prev_c = cands@;
            let ghost prev_w = weights@;
            let left = x > 0 && get_cell(space, x - 1, y) == 2;
            let right = x + 1 < x_size && get_cell(space, x + 1, y) == 2;
            let top = y > 0 && get_cell(space, x, y - 1) == 2;
            let bottom = y + 1 < y_size && get_cell(space, x, y + 1) == 2;
            if get_cell(space, x, y) == 0 && (left || right || top || bottom) {
                let tx = 2 * dot.0;
                let ty = 2 * dot.1;
                if x <= tx && y <= ty {
                    let mx = tx - x;
                    let my = ty - y;
                    if mx < x_size && my < y_size && get_cell(space, mx, my) == 0 {
                        let w1 = calculate_neighbor_weight(space, x, y, x_size, y_size, 2);
                        let w2 = calculate_neighbor_weight(space, mx, my, x_size, y_size, 2);
                        let p1: usize = 4 * (w1 as usize) + 1;
                        let p2: usize = 4 * (w2 as usize) + 1;
                        let w: usize = if p1 >= p2 {
                            p1
                        } else {
                            p2
                        };
                        proof {
                            assert(growth_candidate(o, d0, d1, x as int, y as int));
                            assert(w == growth_weight(o, d0, d1, x as int, y as int));
                            assert(x * y_size + y + 1 <= x_size * y_size) by (nonlinear_arith)
                                requires
                                    0 <= x < x_size,
                                    0 <= y < y_size,
                            ;
                        }
                        cands.push(DotPos(x, y));
                        weights.push(w);
                        proof {
                            assert(weights@.drop_last() =~= prev_w);
                            assert(weights@.last() == w);
                            assert(total + w <= 5 * (x * y_size + y) + 5);
                            assert(5 * (x * y_size + y) + 5 <= 5 * (x_size * y_size));
                            assert(5 * (x_size * y_size) <= 5 * (usize::MAX / 5));
                        }
                        total = total + w;
                    } else {
                        assert(!growth_candidate(o, d0, d1, x as int, y as int));
                    }
                } else {
                    assert(!growth_candidate(o, d0, d1, x as int, y as int));
                }
            } else {
                assert(!growth_candidate(o, d0, d1, x as int, y as int));
            }
            proof {
                assert forall|x2: int, y2: int|
                    0 <= x2 < x && growth_candidate(o, d0, d1, x2, y2) implies exists|k: int|
                    0 <= k < cands@.len() && (#[trigger] cands@[k]).0 == x2 && cands@[k].1
                        == y2 by {
                    let k = choose|k: int|
                        0 <= k < prev_c.len() && (#[trigger] prev_c[k]).0 == x2 && prev_c[k].1
                            == y2;
                    assert(cands@[k].0 == x2 && cands@[k].1 == y2);
                }
                assert forall|y2: int|
                    0 <= y2 < y + 1 && growth_candidate(o, d0, d1, x as int, y2) implies exists|
                    k: int|
                    0 <= k < cands@.len() && (#[trigger] cands@[k]).0 == x as int && cands@[k].1
                        == y2 by {
                    if y2 == y {
                        assert(cands@[prev_c.len() as int].0 == x as int
                            && cands@[prev_c.len() as int].1 == y2);
                    } else {
                        let k = choose|k: int|
                            0 <= k < prev_c.len() && (#[trigger] prev_c[k]).0 == x as int
                                && prev_c[k].1 == y2;
                        assert(cands@[k].0 == x as int && cands@[k].1 == y2);
                    }
                }
            }
            y = y + 1;
        }
        proof {
            assert(x * y_size + y_size == (x + 1) * y_size) by (nonlinear_arith);
            assert forall|x2: int, y2: int|
                0 <= x2 < x + 1 && growth_candidate(o, d0, d1, x2, y2) implies exists|k: int|
                0 <= k < cands@.len() && (#[trigger] cands@[k]).0 == x2 && cands@[k].1 == y2 by {
                if x2 == x {
                    assert(0 <= y2 < y_size && growth_candidate(o, d0, d1, x as int, y2));
                }
            }
        }
        x = x + 1;
    }

    if cands.len() == 0 {
        proof {
            assert forall|x2: int, y2: int| !(#[trigger] growth_candidate(o, d0, d1, x2, y2)) by {
                if 0 <= x2 < x_size && growth_candidate(o, d0, d1, x2, y2) {
                    assert(false);
                }
            }
        }
        return false;
    }

    // One weighted draw over the cumulative ticket table.
    let t = random_below(rng, total);
    let wlen = weights.len();
    let mut idx: usize = 0;
    let mut acc: usize = weights[0];
    proof {
        assert(weights@.take(0) =~= Seq::<usize>::empty());
        lemma_sum_take_succ(weights@, 0);
    }
    while t >= acc
        invariant
            weights@.len() == wlen,
            idx < weights@.len(),
            cands@.len() == weights@.len(),
            forall|k: int|
                0 <= k < cands@.len() ==> growth_candidate(
                    o,
                    d0,
                    d1,
                    (#[trigger] cands@[k]).0 as int,
                    cands@[k].1 as int,
                ),
            forall|k: int| 0 <= k < weights@.len() ==> 1 <= (#[trigger] weights@[k]) <= 5,
            total == sum_weights(weights@),
            acc == sum_weights(weights@.take(idx + 1)),
            t < total,
        decreases weights@.len() - idx,
    {
        proof {
            lemma_sum_take_le(weights@, idx + 1);
            if idx + 1 == weights@.len() {
                assert(weights@.take(idx + 1) =~= weights@);
                assert(false);
            }
            lemma_sum_take_succ(weights@, idx + 1);
            lemma_sum_take_le(weights@, idx + 2);
        }
        idx = idx + 1;
        proof {
            assert(acc + weights@[idx as int] == sum_weights(weights@.take(idx + 1)));
            assert(acc + weights@[idx as int] <= total);
        }
        acc = acc + weights[idx];
    }
    let winner = cands[idx];
    let ghost cx = winner.0 as int;
    let ghost cy = winner.1 as int;
    proof {
        assert(growth_candidate(o, d0, d1, cx, cy));
    }
    set_cell(space, winner.0, winner.1, 2);
    let ghost m1 = space.deep_view();
    let mx = 2 * dot.0 - winner.0;
    let my = 2 * dot.1 - winner.1;
    proof {
        assert(m1 == cell_set(o, cx, cy, 2));
        assert(m1.len() == o.len());
        assert(mx as int == 2 * d0 - cx && my as int == 2 * d1 - cy);
        assert(m1[mx as int].len() == o[mx as int].len());
        assert(my < m1[mx as int].len());
    }
    set_cell(space, mx, my, 2);
    proof {
        let m2 = space.deep_view();
        assert(crate::space::occupancy_monotone(o, m1)) by {
            assert forall|a: int, b: int|
                in_bounds(m1, a, b) && (#[trigger] m1[a][b]) == 0 implies o[a][b] == 0 by {
                if a == cx && b == cy {
                } else {
                    assert(m1[a][b] == o[a][b]);
                }
            }
        }
        assert(m1[cx][cy] == 2);
        crate::space::lemma_count_lt(o, m1, cx, cy);
        assert(crate::space::occupancy_monotone(m1, m2)) by {
            assert forall|a: int, b: int|
                in_bounds(m2, a, b) && (#[trigger] m2[a][b]) == 0 implies m1[a][b] == 0 by {
                if a == mx as int && b == my as int {
                    assert(m2[a][b] == 2);
                } else {
                    assert(m2[a][b] == m1[a][b]);
                }
            }
        }
        crate::space::lemma_count_le(m1, m2);
    }
    true
}

/// All differences between the base grid `o` and the grid `s` under growth
/// are empty cells turned into the transient marker, in point-symmetric
/// pairs around the center.
pub open spec fn grown_sym(o: Seq<Seq<u8>>, s: Seq<Seq<u8>>, dx: int, dy: int) -> bool {
    forall|x: int, y: int|
        in_bounds(s, x, y) && (#[trigger] s[x][y]) != o[x][y] ==> o[x][y] == 0 && s[x][y] == 2
            && in_bounds(o, 2 * dx - x, 2 * dy - y) && s[2 * dx - x][2 * dy - y] != o[2 * dx - x][2
            * dy - y]
}

proof fn lemma_count_upper(s: Seq<Seq<u8>>, m: int)
    requires
        forall|x: int| 0 <= x < s.len() ==> (#[trigger] s[x]).len() <= m,
        m >= 0,
    ensures
        count_empty(s) <= s.len() * m,
    decreases s.len(),
{
    if s.len() == 0 {
    } else {
        lemma_count_upper(s.drop_last(), m);
        crate::space::lemma_count_col_bounds(s.last());
        assert((s.len() - 1) * m + m == s.len() * m) by (nonlinear_arith);
    }
}

/// One growth step keeps the changed set a point-symmetric collection of
/// transient markers over empty cells, and keeps the center changed.
proof fn lemma_grow_step(
    o: Seq<Seq<u8>>,
    prev: Seq<Seq<u8>>,
    s2: Seq<Seq<u8>>,
    d0: int,
    d1: int,
    cx: int,
    cy: int,
)
    requires
        prev.len() == o.len(),
        forall|x: int| 0 <= x < o.len() ==> (#[trigger] prev[x]).len() == o[x].len(),
        grown_sym(o, prev, d0, d1),
        prev[d0][d1] != o[d0][d1],
        0 <= d0 < o.len(),
        0 <= d1 < o[d0].len(),
        growth_candidate(prev, d0, d1, cx, cy),
        s2 == cell_set(cell_set(prev, cx, cy, 2), 2 * d0 - cx, 2 * d1 - cy, 2),
    ensures
        s2.len() == o.len(),
        forall|x: int| 0 <= x < o.len() ==> (#[trigger] s2[x]).len() == o[x].len(),
        grown_sym(o, s2, d0, d1),
        s2[d0][d1] != o[d0][d1],
{
    let mx = 2 * d0 - cx;
    let my = 2 * d1 - cy;
    assert(s2.len() == prev.len());
    assert forall|x: int| 0 <= x < prev.len() implies (#[trigger] s2[x]).len()
        == prev[x].len() by {
        let m1 = cell_set(prev, cx, cy, 2);
        assert(m1[x].len() == prev[x].len());
        assert(s2[x].len() == m1[x].len());
    }
    assert(prev[cx][cy] == 0 && prev[mx][my] == 0);
    assert(o[cx][cy] == 0) by {
        if prev[cx][cy] != o[cx][cy] {
            assert(prev[cx][cy] == 2);
        }
    }
    assert(o[mx][my] == 0) by {
        if prev[mx][my] != o[mx][my] {
            assert(prev[mx][my] == 2);
        }
    }
    assert(s2[cx][cy] == 2 && s2[mx][my] == 2);
    assert(grown_sym(o, s2, d0, d1)) by {
        assert forall|x: int, y: int|
            in_bounds(s2, x, y) && (#[trigger] s2[x][y]) != o[x][y] implies o[x][y] == 0 && s2[x][y]
            == 2 && in_bounds(o, 2 * d0 - x, 2 * d1 - y) && s2[2 * d0 - x][2 * d1 - y] != o[2 * d0
            - x][2 * d1 - y] by {
            if x == cx && y == cy {
                assert(2 * d0 - x == mx && 2 * d1 - y == my);
            } else if x == mx && y == my {
                assert(2 * d0 - x == cx && 2 * d1 - y == cy);
            } else {
                assert(s2[x][y] == prev[x][y]);
                assert(prev[x][y] != o[x][y]);
                let rx = 2 * d0 - x;
                let ry = 2 * d1 - y;
                assert(prev[rx][ry] != o[rx][ry]);
                if rx == cx && ry == cy {
                } else if rx == mx && ry == my {
                } else {
                    assert(s2[rx][ry] == prev[rx][ry]);
                }
            }
        }
    }
    assert(s2[d0][d1] != o[d0][d1]) by {
        assert(prev[d0][d1] != o[d0][d1]);
        assert(prev[d0][d1] == 2);
        if d0 == cx && d1 == cy {
            assert(false);
        }
        if d0 == mx && d1 == my {
            assert(cx == d0 && cy == d1);
            assert(false);
        }
        assert(s2[d0][d1] == prev[d0][d1]);
    }
}

/// Normalizing one transient marker to occupied keeps every changed cell an
/// empty cell that became `1` or `2`, in point-symmetric pairs, and keeps
/// the center changed.
proof fn lemma_normalize_step(
    o: Seq<Seq<u8>>,
    before: Seq<Seq<u8>>,
    s2: Seq<Seq<u8>>,
    d0: int,
    d1: int,
    x: int,
    y: int,
)
    requires
        before.len() == o.len(),
        forall|a: int| 0 <= a < o.len() ==> (#[trigger] before[a]).len() == o[a].len(),
        forall|a: int, b: int| in_bounds(o, a, b) ==> (#[trigger] o[a][b]) != 2,
        forall|a: int, b: int|
            in_bounds(before, a, b) && (#[trigger] before[a][b]) != o[a][b] ==> o[a][b] == 0 && (
            before[a][b] == 1 || before[a][b] == 2) && in_bounds(o, 2 * d0 - a, 2 * d1 - b)
                && before[2 * d0 - a][2 * d1 - b] != o[2 * d0 - a][2 * d1 - b],
        before[d0][d1] != o[d0][d1],
        0 <= d0 < o.len(),
        0 <= d1 < o[d0].len(),
        in_bounds(before, x, y),
        before[x][y] == 2,
        s2 == cell_set(before, x, y, 1),
    ensures
        s2.len() == o.len(),
        forall|a: int| 0 <= a < o.len() ==> (#[trigger] s2[a]).len() == o[a].len(),
        forall|a: int, b: int|
            in_bounds(s2, a, b) && (#[trigger] s2[a][b]) != o[a][b] ==> o[a][b] == 0 && (s2[a][b]
                == 1 || s2[a][b] == 2) && in_bounds(o, 2 * d0 - a, 2 * d1 - b) && s2[2 * d0 - a][2
                * d1 - b] != o[2 * d0 - a][2 * d1 - b],
        s2[d0][d1] != o[d0][d1],
        forall|a: int, b: int|
            in_bounds(before, a, b) ==> ((#[trigger] s2[a][b]) == 2 <==> (before[a][b] == 2 && !(a
                == x && b == y))),
{
    assert(before[x][y] != o[x][y]);
    assert forall|a: int| 0 <= a < o.len() implies (#[trigger] s2[a]).len() == o[a].len() by {
        assert(s2[a].len() == before[a].len());
    }
    assert forall|a: int, b: int|
        in_bounds(s2, a, b) && (#[trigger] s2[a][b]) != o[a][b] implies o[a][b] == 0 && (s2[a][b]
        == 1 || s2[a][b] == 2) && in_bounds(o, 2 * d0 - a, 2 * d1 - b) && s2[2 * d0 - a][2 * d1
        - b] != o[2 * d0 - a][2 * d1 - b] by {
        if a == x && b == y {
        } else {
            assert(s2[a][b] == before[a][b]);
        }
        assert(before[a][b] != o[a][b]);
        let rx = 2 * d0 - a;
        let ry = 2 * d1 - b;
        assert(before[rx][ry] != o[rx][ry]);
        if rx == x && ry == y {
            assert(s2[rx][ry] == 1 && o[rx][ry] == 0);
        } else {
            assert(s2[rx][ry] == before[rx][ry]);
        }
    }
    assert(s2[d0][d1] != o[d0][d1]) by {
        if d0 == x && d1 == y {
            assert(s2[d0][d1] == 1 && o[d0][d1] == 0);
        } else {
            assert(s2[d0][d1] == before[d0][d1]);
        }
    }
    assert forall|a: int, b: int|
        in_bounds(before, a, b) implies ((#[trigger] s2[a][b]) == 2 <==> (before[a][b] == 2 && !(a
        == x && b == y))) by {
        if a == x && b == y {
            assert(s2[a][b] == 1);
        } else {
            assert(s2[a][b] == before[a][b]);
        }
    }
}

/// Grows a randomized galaxy around `dot`: marks the center, repeatedly adds
/// point-symmetric pairs of cells until no candidate is left or a random
/// draw exceeds the stopping probability (which falls as the region lags the
/// target size, total grid area over forty, and rises past it), then
/// normalizes every transient marker to occupied. Every cell the call
/// changes goes from empty to occupied, and the changed set is
/// point-symmetric around the center.
#[verifier::rlimit(100)]
pub fn generate_galaxy_from_dot(
    space: &mut DotSpace,
    dot: &DotPos,
    rng: &mut rand::rngs::ThreadRng,
)
    requires
        space_wf(old(space).deep_view()),
        dot.0 < old(space)@.len(),
        dot.1 < old(space).deep_view()[0].len(),
        old(space).deep_view()[dot.0 as int][dot.1 as int] == 0,
        forall|x: int, y: int|
            in_bounds(old(space).deep_view(), x, y) ==> (#[trigger] old(space).deep_view()[x][y])
                != 2,
        old(space)@.len() * old(space).deep_view()[0].len() <= usize::MAX / 5,
        old(space)@.len() * old(space).deep_view()[0].len() <= 0x7FFF_FFFF,
    ensures
        crate::space::only_occupies(old(space).deep_view(), final(space).deep_view()),
        final(space).deep_view()[dot.0 as int][dot.1 as int] == 1,
        count_empty(final(space).deep_view()) < count_empty(old(space).deep_view()),
        forall|x: int, y: int|
            in_bounds(final(space).deep_view(), x, y) ==> (#[trigger] final(space).deep_view()[x][y]) != 2,
        forall|x: int, y: int|
            in_bounds(final(space).deep_view(), x, y) && (#[trigger] final(space).deep_view()[x][y])
                != old(space).deep_view()[x][y] ==> old(space).deep_view()[x][y] == 0
                && final(space).deep_view()[x][y] == 1
                && in_bounds(old(space).deep_view(), 2 * (dot.0 as int) - x, 2 * (dot.1 as int) - y)
                && final(space).deep_view()[2 * (dot.0 as int) - x][2 * (dot.1 as int) - y]
                != old(space).deep_view()[2 * (dot.0 as int) - x][2 * (dot.1 as int) - y],
{
    let ghost o = space.deep_view();
    let ghost d0 = dot.0 as int;
    let ghost d1 = dot.1 as int;
    let x_size = space.len();
    let y_size = space[0].len();

    set_cell(space, dot.0, dot.1, 2);
    proof {
        assert(grown_sym(o, space.deep_view(), d0, d1)) by {
            assert forall|x: int, y: int|
                in_bounds(space.deep_view(), x, y) && (#[trigger] space.deep_view()[x][y])
                    != o[x][y] implies o[x][y] == 0 && space.deep_view()[x][y] == 2 && in_bounds(
                o,
                2 * d0 - x,
                2 * d1 - y,
            ) && space.deep_view()[2 * d0 - x][2 * d1 - y] != o[2 * d0 - x][2 * d1 - y] by {
                assert(x == d0 && y == d1);
            }
        }
        assert forall|x: int|
            0 <= x < space.deep_view().len() implies (#[trigger] space.deep_view()[x]).len()
            <= o[0].len() by {
            assert(space.deep_view()[x].len() == o[x].len());
        }
        lemma_count_upper(space.deep_view(), o[0].len() as int);
        crate::space::lemma_count_bounds(space.deep_view());
        assert(space.deep_view().len() * o[0].len() == o.len() * o[0].len());
    }
    let ghost count_start = count_empty(space.deep_view());

    // Add fields to the galaxy until exhaustion or a stopping draw.
    let area: usize = x_size * y_size;
    let mid_of_bell: i64 = (area as i64) / 40 - 1;
    let steepness: i64 = 10;
    let mut field: i64 = 0;

    loop
        invariant_except_break
            0 <= field <= 1 + count_start - count_empty(space.deep_view()),
        invariant
            space_wf(o),
            o == old(space).deep_view(),
            d0 == dot.0 as int,
            d1 == dot.1 as int,
            dot.0 < x_size,
            dot.1 < y_size,
            x_size == o.len(),
            y_size == o[0].len(),
            x_size * y_size <= usize::MAX / 5,
            x_size * y_size <= 0x7FFF_FFFF,
            area == x_size * y_size,
            mid_of_bell == area as int / 40 - 1,
            steepness == 10,
            space.deep_view().len() == o.len(),
            forall|x: int|
                0 <= x < o.len() ==> (#[trigger] space.deep_view()[x]).len() == o[x].len(),
            space_wf(space.deep_view()),
            grown_sym(o, space.deep_view(), d0, d1),
            space.deep_view()[d0][d1] != o[d0][d1],
            0 <= count_empty(space.deep_view()),
            count_start <= area,
        ensures
            space_wf(o),
            space.deep_view().len() == o.len(),
            forall|x: int|
                0 <= x < o.len() ==> (#[trigger] space.deep_view()[x]).len() == o[x].len(),
            space_wf(space.deep_view()),
            grown_sym(o, space.deep_view(), d0, d1),
            space.deep_view()[d0][d1] != o[d0][d1],
        decreases count_empty(space.deep_view()),
    {
        let ghost prev = space.deep_view();
        let result = add_field_to_galaxy(space, dot, rng);
        proof {
            if result {
                let (cx, cy) = choose|cx: int, cy: int|
                    #[trigger] growth_candidate(prev, d0, d1, cx, cy) && space.deep_view()
                        == cell_set(cell_set(prev, cx, cy, 2), 2 * d0 - cx, 2 * d1 - cy, 2);
                lemma_grow_step(o, prev, space.deep_view(), d0, d1, cx, cy);
                crate::space::lemma_count_bounds(space.deep_view());
            }
        }
        field = field + 1;
        if !result {
            break ;
        }

        // Stopping probability: falls below the target size and rises past
        // it, shaped by the rounded square root of the squared distance.
        let d: i64 = field - mid_of_bell;
        proof {
            assert(-(0x7FFF_FFFFi64) <= d <= 0x8000_0001i64);
            assert(d * d <= 0x4000_0001_0000_0001i64) by (nonlinear_arith)
                requires
                    -(0x7FFF_FFFFi64) <= d <= 0x8000_0001i64,
            ;
            assert(d * d >= 0) by (nonlinear_arith);
        }
        let dd: i64 = d * d;
        let n: u64 = (steepness + dd) as u64;
        let denom: u64 = rounded_sqrt(n);
        proof {
            assert(denom >= 1);
        }
        let mag: u64 = if d >= 0 {
            (50 * d) as u64 / denom
        } else {
            (50 * (-d)) as u64 / denom
        };
        let dice: i64 = 1 + (random_below(rng, 98) as i64);
        // The roll stops growth when it exceeds the probability
        // `50 - 50 * d / denom`, compared here without overflow.
        let stop: bool = if d >= 0 {
            dice > 50 || mag > (50 - dice) as u64
        } else {
            dice > 50 && (dice - 50) as u64 > mag
        };
        if stop {
            break ;
        }
    }

    // Normalize the transient growth markers to occupied.
    let ghost g = space.deep_view();
    let mut x: usize = 0;
    while x < x_size
        invariant
            space_wf(o),
            o == old(space).deep_view(),
            d0 == dot.0 as int,
            d1 == dot.1 as int,
            dot.0 < x_size,
            dot.1 < y_size,
            x_size == o.len(),
            y_size == o[0].len(),
            x <= x_size,
            forall|a: int, b: int|
                in_bounds(o, a, b) ==> (#[trigger] o[a][b]) != 2,
            space.deep_view().len() == o.len(),
            forall|a: int|
                0 <= a < o.len() ==> (#[trigger] space.deep_view()[a]).len() == o[a].len(),
            space_wf(space.deep_view()),
            space.deep_view()[d0][d1] != o[d0][d1],
            forall|a: int, b: int|
                in_bounds(space.deep_view(), a, b) && (#[trigger] space.deep_view()[a][b])
                    != o[a][b] ==> o[a][b] == 0 && (space.deep_view()[a][b] == 1
                    || space.deep_view()[a][b] == 2) && in_bounds(o, 2 * d0 - a, 2 * d1 - b)
                    && space.deep_view()[2 * d0 - a][2 * d1 - b] != o[2 * d0 - a][2 * d1 - b],
            forall|a: int, b: int|
                in_bounds(o, a, b) && a < x ==> (#[trigger] space.deep_view()[a][b]) != 2,
        decreases x_size - x,
    {
        let mut y: usize = 0;
        while y < y_size
            invariant
                space_wf(o),
                o == old(space).deep_view(),
                d0 == dot.0 as int,
                d1 == dot.1 as int,
                dot.0 < x_size,
                dot.1 < y_size,
                x_size == o.len(),
                y_size == o[0].len(),
                x < x_size,
                y <= y_size,
                forall|a: int, b: int|
                    in_bounds(o, a, b) ==> (#[trigger] o[a][b]) != 2,
                space.deep_view().len() == o.len(),
                forall|a: int|
                    0 <= a < o.len() ==> (#[trigger] space.deep_view()[a]).len() == o[a].len(),
                space_wf(space.deep_view()),
                space.deep_view()[d0][d1] != o[d0][d1],
                forall|a: int, b: int|
                    in_bounds(space.deep_view(), a, b) && (#[trigger] space.deep_view()[a][b])
                        != o[a][b] ==> o[a][b] == 0 && (space.deep_view()[a][b] == 1
                        || space.deep_view()[a][b] == 2) && in_bounds(o, 2 * d0 - a, 2 * d1 - b)
                        && space.deep_view()[2 * d0 - a][2 * d1 - b] != o[2 * d0 - a][2 * d1 - b],
                forall|a: int, b: int|
                    in_bounds(o, a, b) && a < x ==> (#[trigger] space.deep_view()[a][b]) != 2,
                forall|b: int|
                    0 <= b < y ==> (#[trigger] space.deep_view()[x as int][b]) != 2,
            decreases y_size - y,
        {
            if get_cell(space, x, y) == 2 {
                let ghost before = space.deep_view();
                set_cell(space, x, y, 1);
                proof {
                    lemma_normalize_step(o, before, space.deep_view(), d0, d1, x as int, y as int);
                }
            }
            y = y + 1;
        }
        x = x + 1;
    }
    proof {
        let f = space.deep_view();
        assert forall|a: int, b: int|
            in_bounds(f, a, b) && (#[trigger] f[a][b]) != o[a][b] implies o[a][b] == 0 && f[a][b]
            == 1 && in_bounds(o, 2 * d0 - a, 2 * d1 - b) && f[2 * d0 - a][2 * d1 - b] != o[2 * d0
            - a][2 * d1 - b] by {
            assert(f[a][b] != 2);
        }
        assert(crate::space::only_occupies(o, f));
        crate::space::lemma_only_occupies_facts(o, f);
        assert(f[d0][d1] == 1);
        crate::space::lemma_count_lt(o, f, d0, d1);
    }
}

/// Picks a random cell able to host a new galaxy center, preferring the most
/// open remaining space: tries decreasing clearance radii from three down to
/// zero and draws uniformly among the first non-empty candidate list. An
/// error means the board held no empty cell at all.
pub fn generate_random_dot_in_empty_spot(
    space: &DotSpace,
    rng: &mut rand::rngs::ThreadRng,
) -> (r: Result<DotPos, GenError>)
    requires
        space_wf(space.deep_view()),
    ensures
        match r {
            Ok(d) => in_bounds(space.deep_view(), d.0 as int, d.1 as int)
                && space.deep_view()[d.0 as int][d.1 as int] == 0 && (is_dot_candidate(
                space.deep_view(),
                3,
                d.0 as int,
                d.1 as int,
            ) || (crate::weight::no_dot_candidates(space.deep_view(), 3) && is_dot_candidate(
                space.deep_view(),
                2,
                d.0 as int,
                d.1 as int,
            )) || (crate::weight::no_dot_candidates(space.deep_view(), 3)
                && crate::weight::no_dot_candidates(space.deep_view(), 2) && is_dot_candidate(
                space.deep_view(),
                1,
                d.0 as int,
                d.1 as int,
            )) || (crate::weight::no_dot_candidates(space.deep_view(), 3)
                && crate::weight::no_dot_candidates(space.deep_view(), 2)
                && crate::weight::no_dot_candidates(space.deep_view(), 1) && is_dot_candidate(
                space.deep_view(),
                0,
                d.0 as int,
                d.1 as int,
            ))),
            Err(e) => e == GenError::NoCandidates && forall|x: int, y: int|
                in_bounds(space.deep_view(), x, y) ==> (#[trigger] space.deep_view()[x][y]) != 0,
        },
{
    let ghost s = space.deep_view();
    let mut candidates = get_random_dot_candidates(space, 3);
    if candidates.len() == 0 {
        proof {
            assert forall|x: int, y: int| !(#[trigger] is_dot_candidate(s, 3, x, y)) by {
                if is_dot_candidate(s, 3, x, y) {
                    assert(false);
                }
            }
            assert(crate::weight::no_dot_candidates(s, 3));
        }
        candidates = get_random_dot_candidates(space, 2);
    }
    if candidates.len() == 0 {
        proof {
            assert forall|x: int, y: int| !(#[trigger] is_dot_candidate(s, 2, x, y)) by {
                if is_dot_candidate(s, 2, x, y) {
                    assert(false);
                }
            }
            assert(crate::weight::no_dot_candidates(s, 2));
        }
        candidates = get_random_dot_candidates(space, 1);
    }
    if candidates.len() == 0 {
        proof {
            assert forall|x: int, y: int| !(#[trigger] is_dot_candidate(s, 1, x, y)) by {
                if is_dot_candidate(s, 1, x, y) {
                    assert(false);
                }
            }
            assert(crate::weight::no_dot_candidates(s, 1));
        }
        candidates = get_random_dot_candidates(space, 0);
    }
    if candidates.len() == 0 {
        proof {
            assert forall|x: int, y: int| in_bounds(s, x, y) implies (#[trigger] s[x][y]) != 0 by {
                if s[x][y] == 0 {
                    assert(is_dot_candidate(s, 0, x, y));
                    assert(false);
                }
            }
        }
        return Err(GenError::NoCandidates);
    }

    // Choose one candidate uniformly at random.
    let new_dot_index = random_below(rng, candidates.len());
    let d = candidates[new_dot_index];
    Ok(d)
}

} // verus!
