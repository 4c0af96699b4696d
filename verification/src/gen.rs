//! The orchestrator: alternates deterministic pattern matching and
//! randomized placement-and-growth until no empty cell remains.

use vstd::prelude::*;

use crate::err::GenError;
use crate::growth::generate_galaxy_from_dot;
use crate::growth::generate_random_dot_in_empty_spot;
use crate::matcher::dots_match;
use crate::matcher::generate_next_dots_by_pattern;
use crate::matcher::is_first_match;
use crate::matcher::mark_cells;
use crate::matcher::pattern_dots;
use crate::matcher::pattern_marks;
use crate::matcher::pattern_matches_at;
use crate::patterns::Pattern;
use crate::patterns::create_patterns;
use crate::patterns::pattern_centered;
use crate::patterns::pattern_wf;
use crate::rng::new_rng;
use crate::space::DotPos;
use crate::space::DotSpace;
use crate::space::count_empty;
use crate::space::count_empty_spots;
use crate::space::bordered;
use crate::space::in_bounds;
use crate::space::occupancy_monotone;
use crate::space::only_occupies;
use crate::space::space_wf;

verus! {

/// The largest accepted board dimension: keeps every coordinate and area
/// computation inside the fixed-width integer ranges used by the generator.
pub const MAX_BOARD: usize = 8192;

/// The batch came from the deterministic phase: the first fitting
/// anchor/pattern combination of the scan was applied, the batch is exactly
/// its shifted centers, and the grid is the fold of its markings.
pub open spec fn resolved_by_pattern(
    o: Seq<Seq<u8>>,
    pats: Seq<Seq<Seq<u8>>>,
    dots: Seq<DotPos>,
    f: Seq<Seq<u8>>,
) -> bool {
    exists|x: int, y: int, k: int|
        #![trigger is_first_match(bordered(o, 1), pats, x, y, k)]
        {
            &&& is_first_match(bordered(o, 1), pats, x, y, k)
            &&& pattern_marks(pats[k], x, y).len() > 0
            &&& dots_match(dots, pattern_dots(pats[k], x, y))
            &&& f == mark_cells(o, pattern_marks(pats[k], x, y), 1)
        }
}

/// The batch came from the randomized phase: no pattern fits anywhere, the
/// batch is one previously-empty cell, and the galaxy grown around it covers
/// that cell with a point-symmetric set of newly occupied cells.
pub open spec fn resolved_by_growth(
    o: Seq<Seq<u8>>,
    pats: Seq<Seq<Seq<u8>>>,
    dots: Seq<DotPos>,
    f: Seq<Seq<u8>>,
) -> bool {
    &&& forall|x: int, y: int, k: int|
        0 <= x < bordered(o, 1).len() && 0 <= y < bordered(o, 1)[0].len() && 0 <= k < pats.len()
            ==> !(#[trigger] pattern_matches_at(bordered(o, 1), pats[k], x, y))
    &&& dots.len() == 1
    &&& in_bounds(o, dots[0].0 as int, dots[0].1 as int)
    &&& o[dots[0].0 as int][dots[0].1 as int] == 0
    &&& f[dots[0].0 as int][dots[0].1 as int] == 1
    &&& forall|x: int, y: int|
        in_bounds(f, x, y) && (#[trigger] f[x][y]) != o[x][y] ==> o[x][y] == 0 && f[x][y] == 1
            && in_bounds(o, 2 * (dots[0].0 as int) - x, 2 * (dots[0].1 as int) - y) && f[2 * (
        dots[0].0 as int) - x][2 * (dots[0].1 as int) - y] != o[2 * (dots[0].0 as int) - x][2 * (
        dots[0].1 as int) - y]
}

/// Produces the next batch of dots: first by pattern matching, and when no
/// pattern fits anywhere, by placing one random dot and growing a galaxy
/// around it. Requires a board that still has empty cells; on success the
/// number of empty cells strictly decreases.
pub fn generate_next_dots(
    space: &mut DotSpace,
    pattern_list: &Vec<Pattern>,
    rng: &mut rand::rngs::ThreadRng,
) -> (r: Result<Vec<DotPos>, GenError>)
    requires
        space_wf(old(space).deep_view()),
        old(space)@.len() <= usize::MAX - 2,
        old(space).deep_view()[0].len() <= usize::MAX - 2,
        old(space)@.len() * old(space).deep_view()[0].len() <= usize::MAX / 5,
        old(space)@.len() * old(space).deep_view()[0].len() <= 0x7FFF_FFFF,
        forall|k: int|
            0 <= k < pattern_list@.len() ==> pattern_wf(#[trigger] pattern_list.deep_view()[k]),
        forall|x: int, y: int|
            in_bounds(old(space).deep_view(), x, y) ==> (#[trigger] old(space).deep_view()[x][y])
                != 2,
        count_empty(old(space).deep_view()) > 0,
    ensures
        r matches Ok(dots) ==> {
            &&& space_wf(final(space).deep_view())
            &&& occupancy_monotone(old(space).deep_view(), final(space).deep_view())
            &&& only_occupies(old(space).deep_view(), final(space).deep_view())
            &&& count_empty(final(space).deep_view()) < count_empty(old(space).deep_view())
            &&& forall|x: int, y: int|
                in_bounds(final(space).deep_view(), x, y) ==> (#[trigger] final(space).deep_view()[x][y]) != 2
            &&& forall|i: int|
                0 <= i < dots@.len() ==> (#[trigger] dots@[i]).0 < old(space)@.len() && dots@[i].1
                    < old(space).deep_view()[0].len() && old(space).deep_view()[dots@[i].0 as int][dots@[i].1 as int]
                    == 0
            &&& (resolved_by_pattern(
                old(space).deep_view(),
                pattern_list.deep_view(),
                dots@,
                final(space).deep_view(),
            ) || resolved_by_growth(
                old(space).deep_view(),
                pattern_list.deep_view(),
                dots@,
                final(space).deep_view(),
            ))
        },
        (forall|k: int|
            0 <= k < pattern_list@.len() ==> pattern_centered(
                #[trigger] pattern_list.deep_view()[k],
            )) ==> (r matches Ok(dots) ==> dots@.len() == 1),
        r matches Err(e) ==> e == GenError::NothingOccupied && final(space).deep_view() == old(space).deep_view(),
{
    let ghost o = space.deep_view();
    // First try pattern matching.
    let next_dots = generate_next_dots_by_pattern(space, pattern_list);
    match next_dots {
        Err(e) => Err(e),
        Ok(Some(dots)) => {
            proof {
                crate::space::lemma_only_occupies_facts(o, space.deep_view());
                assert forall|x: int, y: int|
                    in_bounds(space.deep_view(), x, y) implies (
                #[trigger] space.deep_view()[x][y]) != 2 by {
                    if space.deep_view()[x][y] != o[x][y] {
                        assert(space.deep_view()[x][y] == 1);
                    }
                }
                let pats = pattern_list.deep_view();
                let (x, y, k) = choose|x: int, y: int, k: int|
                    #[trigger] is_first_match(bordered(o, 1), pats, x, y, k) && pattern_marks(
                        pats[k],
                        x,
                        y,
                    ).len() > 0 && dots_match(dots@, pattern_dots(pats[k], x, y))
                        && space.deep_view() == mark_cells(o, pattern_marks(pats[k], x, y), 1);
                assert(is_first_match(bordered(o, 1), pats, x, y, k));
                assert(resolved_by_pattern(o, pats, dots@, space.deep_view()));
            }
            Ok(dots)
        },
        Ok(None) => {
            // If that doesn't work, generate a random dot and grow a galaxy.
            proof {
                crate::space::lemma_count_zero(o);
            }
            let picked = generate_random_dot_in_empty_spot(space, rng);
            match picked {
                Err(_) => {
                    proof {
                        assert(false);
                    }
                    Err(GenError::NoCandidates)
                },
                Ok(new_dot) => {
                    generate_galaxy_from_dot(space, &new_dot, rng);
                    proof {
                        crate::space::lemma_only_occupies_facts(o, space.deep_view());
                    }
                    let mut dots: Vec<DotPos> = Vec::new();
                    dots.push(new_dot);
                    Ok(dots)
                },
            }
        },
    }
}

/// Fills the given board completely: repeats `generate_next_dots` until no
/// empty cell remains, accumulating every discovered dot. On success the
/// board holds no empty cell and every returned dot lies on it.
pub fn generate_dots_in_space(space: &mut DotSpace, rng: &mut rand::rngs::ThreadRng) -> (r: Result<
    Vec<DotPos>,
    GenError,
>)
    requires
        space_wf(old(space).deep_view()),
        old(space)@.len() <= usize::MAX - 2,
        old(space).deep_view()[0].len() <= usize::MAX - 2,
        old(space)@.len() * old(space).deep_view()[0].len() <= usize::MAX / 5,
        old(space)@.len() * old(space).deep_view()[0].len() <= 0x7FFF_FFFF,
        forall|x: int, y: int|
            in_bounds(old(space).deep_view(), x, y) ==> (#[trigger] old(space).deep_view()[x][y])
                != 2,
    ensures
        r matches Ok(dots) ==> {
            &&& count_empty(final(space).deep_view()) == 0
            &&& forall|x: int, y: int|
                in_bounds(final(space).deep_view(), x, y) ==> (#[trigger] final(space).deep_view()[x][y]) != 0
            &&& forall|i: int|
                0 <= i < dots@.len() ==> (#[trigger] dots@[i]).0 < old(space)@.len() && dots@[i].1
                    < old(space).deep_view()[0].len()
            &&& dots@.len() <= count_empty(old(space).deep_view())
            &&& count_empty(old(space).deep_view()) > 0 ==> dots@.len() >= 1
        },
        r matches Err(e) ==> e == GenError::NothingOccupied,
{
    let ghost o = space.deep_view();
    let x_size = space.len();
    let y_size = space[0].len();
    let pattern_list = create_patterns();
    let mut new_dot_list: Vec<DotPos> = Vec::new();
    proof {
        crate::space::lemma_count_bounds(o);
    }
    let mut empty_spaces = count_empty_spots(space);
    while empty_spaces > 0
        invariant
            space_wf(space.deep_view()),
            x_size == old(space)@.len(),
            y_size == old(space).deep_view()[0].len(),
            space.deep_view().len() == x_size,
            space.deep_view()[0].len() == y_size,
            x_size <= usize::MAX - 2,
            y_size <= usize::MAX - 2,
            x_size * y_size <= usize::MAX / 5,
            x_size * y_size <= 0x7FFF_FFFF,
            forall|k: int|
                0 <= k < pattern_list@.len() ==> pattern_wf(
                    #[trigger] pattern_list.deep_view()[k],
                ),
            forall|k: int|
                0 <= k < pattern_list@.len() ==> pattern_centered(
                    #[trigger] pattern_list.deep_view()[k],
                ),
            forall|x: int, y: int|
                in_bounds(space.deep_view(), x, y) ==> (#[trigger] space.deep_view()[x][y]) != 2,
            empty_spaces == count_empty(space.deep_view()),
            forall|i: int|
                0 <= i < new_dot_list@.len() ==> (#[trigger] new_dot_list@[i]).0 < x_size
                    && new_dot_list@[i].1 < y_size,
            new_dot_list@.len() <= count_empty(o) - count_empty(space.deep_view()),
            count_empty(space.deep_view()) < count_empty(o) ==> new_dot_list@.len() >= 1,
            o == old(space).deep_view(),
        decreases count_empty(space.deep_view()),
    {
        let ghost before = space.deep_view();
        let next = generate_next_dots(space, &pattern_list, rng);
        match next {
            Err(e) => {
                return Err(e);
            },
            Ok(next_dots) => {
                let ghost prev_len = new_dot_list@.len();
                let mut i: usize = 0;
                while i < next_dots.len()
                    invariant
                        i <= next_dots@.len(),
                        new_dot_list@.len() == prev_len + i,
                        forall|j: int|
                            0 <= j < next_dots@.len() ==> (#[trigger] next_dots@[j]).0 < x_size
                                && next_dots@[j].1 < y_size,
                        forall|j: int|
                            0 <= j < new_dot_list@.len() ==> (#[trigger] new_dot_list@[j]).0
                                < x_size && new_dot_list@[j].1 < y_size,
                    decreases next_dots@.len() - i,
                {
                    new_dot_list.push(next_dots[i]);
                    i = i + 1;
                }
            },
        }
        proof {
            crate::space::lemma_count_bounds(space.deep_view());
        }
        empty_spaces = count_empty_spots(space);
    }
    proof {
        crate::space::lemma_count_zero(space.deep_view());
    }
    Ok(new_dot_list)
}

/// Entry point into dot generation: takes the logical board size, builds the
/// doubled-resolution grid, and generates dots until the board is covered.
/// Rejects a zero dimension and a board too large for the generator's
/// coordinate arithmetic; every returned dot lies on the doubled grid.
pub fn generate_dots(x_size: usize, y_size: usize) -> (r: Result<Vec<DotPos>, GenError>)
    ensures
        (x_size == 0 || y_size == 0) <==> r == Err::<Vec<DotPos>, GenError>(
            GenError::InvalidDimensions,
        ),
        (x_size >= 1 && y_size >= 1 && (x_size > MAX_BOARD || y_size > MAX_BOARD)) <==> r
            == Err::<Vec<DotPos>, GenError>(GenError::GridTooLarge),
        r matches Err(e) ==> (e == GenError::InvalidDimensions || e == GenError::GridTooLarge || e
            == GenError::NothingOccupied),
        r matches Ok(dots) ==> forall|i: int|
            0 <= i < dots@.len() ==> (#[trigger] dots@[i]).0 <= 2 * x_size - 2 && dots@[i].1 <= 2
                * y_size - 2,
        r matches Ok(dots) ==> 1 <= dots@.len() <= (2 * x_size - 1) * (2 * y_size - 1),
{
    if x_size == 0 || y_size == 0 {
        return Err(GenError::InvalidDimensions);
    }
    if x_size > MAX_BOARD || y_size > MAX_BOARD {
        return Err(GenError::GridTooLarge);
    }
    let gx = 2 * x_size - 1;
    let gy = 2 * y_size - 1;
    proof {
        assert(gx * gy <= 0x3FFF * 0x3FFF) by (nonlinear_arith)
            requires
                0 < gx <= 0x3FFF,
                0 < gy <= 0x3FFF,
        ;
    }

    // Generate the empty doubled-resolution grid.
    let mut space: DotSpace = Vec::new();
    let mut x: usize = 0;
    while x < gx
        invariant
            gy >= 1,
            x <= gx,
            space.deep_view().len() == x,
            forall|a: int|
                0 <= a < x ==> (#[trigger] space.deep_view()[a]).len() == gy,
            forall|a: int, b: int|
                0 <= a < x && 0 <= b < gy ==> (#[trigger] space.deep_view()[a][b]) == 0,
        decreases gx - x,
    {
        let ghost prev = space.deep_view();
        let column = crate::space::filler_line(gy, 0);
        space.push(column);
        proof {
            assert forall|a: int|
                0 <= a < x + 1 implies (#[trigger] space.deep_view()[a]).len() == gy by {
                if a < x {
                    assert(space.deep_view()[a] == prev[a]);
                }
            }
            assert forall|a: int, b: int|
                0 <= a < x + 1 && 0 <= b < gy implies (#[trigger] space.deep_view()[a][b]) == 0 by {
                if a < x {
                    assert(space.deep_view()[a] == prev[a]);
                }
            }
        }
        x = x + 1;
    }

    // Generate dots in the space.
    proof {
        crate::space::lemma_count_all_empty(space.deep_view(), gy as int);
        assert(gx * gy >= 1) by (nonlinear_arith)
            requires
                gx >= 1,
                gy >= 1,
        ;
    }
    let mut rng = new_rng();
    generate_dots_in_space(&mut space, &mut rng)
}

} // verus!
