use galaxygen::DotPos;
use galaxygen::DotSpace;
use galaxygen::GenError;
use galaxygen::generate_dots;
use galaxygen::generate_dots_in_space;
use galaxygen::generate_next_dots;
use galaxygen::growth::generate_galaxy_from_dot;
use galaxygen::growth::generate_random_dot_in_empty_spot;
use galaxygen::growth::rounded_sqrt;
use galaxygen::matcher::find_first_match;
use galaxygen::matcher::generate_next_dots_by_pattern;
use galaxygen::patterns::create_patterns;
use galaxygen::space::add_border;
use galaxygen::space::count_empty_spots;
use galaxygen::space::filler_line;

fn empty_space(x: usize, y: usize) -> DotSpace {
    let mut space: DotSpace = Vec::new();
    for _ in 0..x {
        space.push(filler_line(y, 0));
    }
    space
}

fn full_space_with_holes(x: usize, y: usize, holes: &[(usize, usize)]) -> DotSpace {
    let mut space: DotSpace = Vec::new();
    for _ in 0..x {
        space.push(filler_line(y, 1));
    }
    for &(hx, hy) in holes {
        space[hx][hy] = 0;
    }
    space
}

#[test]
fn one_by_one_board_yields_single_origin_dot() {
    let dots = generate_dots(1, 1).unwrap();
    assert_eq!(dots, vec![DotPos(0, 0)]);
}

#[test]
fn two_by_two_board_terminates_with_full_coverage() {
    let dots = generate_dots(2, 2).unwrap();
    assert!(dots.len() >= 1);
    for dot in &dots {
        assert!(dot.0 <= 2 && dot.1 <= 2);
    }
    // The same run observed on the grid itself: no empty cell remains.
    let mut space = empty_space(3, 3);
    let mut rng = rand::thread_rng();
    let dots = generate_dots_in_space(&mut space, &mut rng).unwrap();
    assert!(dots.len() >= 1);
    assert_eq!(count_empty_spots(&space), 0);
}

#[test]
fn three_by_three_board_is_resolved_by_one_block_pattern() {
    // The empty 5x5 grid is exactly the shape of the most important
    // template: one deterministic match covers the whole board and yields a
    // single center.
    let dots = generate_dots(3, 3).unwrap();
    assert_eq!(dots, vec![DotPos(2, 2)]);
}

#[test]
fn zero_dimension_is_rejected() {
    assert_eq!(generate_dots(0, 5), Err(GenError::InvalidDimensions));
    assert_eq!(generate_dots(5, 0), Err(GenError::InvalidDimensions));
    assert_eq!(generate_dots(0, 0), Err(GenError::InvalidDimensions));
}

#[test]
fn oversized_dimension_is_rejected() {
    assert_eq!(generate_dots(8193, 1), Err(GenError::GridTooLarge));
    assert_eq!(generate_dots(1, 8193), Err(GenError::GridTooLarge));
}

#[test]
fn full_board_has_no_random_candidates() {
    let space = full_space_with_holes(3, 3, &[]);
    let mut rng = rand::thread_rng();
    assert_eq!(
        generate_random_dot_in_empty_spot(&space, &mut rng),
        Err(GenError::NoCandidates)
    );
}

#[test]
fn single_cross_hole_is_matched_by_the_single_cell_pattern() {
    // Only the single-cell template can fit a lone empty cell whose four
    // neighbors are occupied: every other template needs more empty cells.
    let mut space = full_space_with_holes(5, 5, &[(2, 2)]);
    let patterns = create_patterns();
    let bordered = add_border(&space, 1);
    let found = find_first_match(&bordered, &patterns);
    assert_eq!(found, Some((2, 2, 20)));
    let dots = generate_next_dots_by_pattern(&mut space, &patterns)
        .unwrap()
        .unwrap();
    assert_eq!(dots, vec![DotPos(2, 2)]);
    assert_eq!(space[2][2], 1);
    assert_eq!(count_empty_spots(&space), 0);
}

#[test]
fn match_that_marks_nothing_is_an_error() {
    // The lone empty cell sits on odd coordinates, so the matched
    // single-cell template has nothing to mark: an inconsistent state.
    let mut space = full_space_with_holes(3, 3, &[(1, 1)]);
    let patterns = create_patterns();
    let r = generate_next_dots_by_pattern(&mut space, &patterns);
    assert_eq!(r, Err(GenError::NothingOccupied));
    // The grid is left unchanged.
    assert_eq!(space, full_space_with_holes(3, 3, &[(1, 1)]));
}

#[test]
fn fallback_resolves_pattern_less_remainder() {
    // Two adjacent empty cells fit no template (the smallest needs four
    // occupied neighbors, the others need at least three empty cells), so
    // the random fallback must place exactly one further dot.
    let mut space = full_space_with_holes(3, 3, &[(0, 0), (1, 0)]);
    let patterns = create_patterns();
    let bordered = add_border(&space, 1);
    assert_eq!(find_first_match(&bordered, &patterns), None);
    let mut rng = rand::thread_rng();
    let dots = generate_next_dots(&mut space, &patterns, &mut rng).unwrap();
    assert_eq!(dots.len(), 1);
    assert!(dots[0] == DotPos(0, 0) || dots[0] == DotPos(1, 0));
    assert!(count_empty_spots(&space) < 2);
}

#[test]
fn single_candidate_fallback_returns_it() {
    // With exactly one candidate, the uniform draw has exactly one lawful
    // outcome.
    let space = full_space_with_holes(3, 3, &[(0, 0)]);
    let mut rng = rand::thread_rng();
    let d = generate_random_dot_in_empty_spot(&space, &mut rng).unwrap();
    assert_eq!(d, DotPos(0, 0));
}

#[test]
fn growth_marks_point_symmetric_pairs() {
    // Growing from the center of an empty grid: every changed cell has its
    // point reflection through the center changed as well.
    let mut space = empty_space(9, 9);
    let mut rng = rand::thread_rng();
    generate_galaxy_from_dot(&mut space, &DotPos(4, 4), &mut rng);
    assert_eq!(space[4][4], 1);
    for x in 0..9 {
        for y in 0..9 {
            assert_ne!(space[x][y], 2);
            if space[x][y] == 1 {
                assert_eq!(space[8 - x][8 - y], 1);
            }
        }
    }
}

#[test]
fn pattern_catalog_has_twenty_one_centered_templates() {
    let patterns = create_patterns();
    assert_eq!(patterns.len(), 21);
    for p in &patterns {
        assert!(p.len() % 2 == 1);
        let width = p[0].len();
        assert!(width % 2 == 1);
        for (x, row) in p.iter().enumerate() {
            assert_eq!(row.len(), width);
            for (y, &v) in row.iter().enumerate() {
                assert!(v <= 3);
                // The center marker sits exactly at the geometric center.
                let at_center = x == (p.len() - 1) / 2 && y == (width - 1) / 2;
                assert_eq!(v == 3, at_center);
            }
        }
    }
    // The catalog is a fixed constant: a second call builds the same list.
    assert_eq!(patterns, create_patterns());
}

#[test]
fn lone_cell_board_is_resolved_without_the_random_fallback() {
    let mut space: DotSpace = vec![vec![0u8]];
    let patterns = create_patterns();
    let mut rng = rand::thread_rng();
    let dots = generate_next_dots(&mut space, &patterns, &mut rng).unwrap();
    assert_eq!(dots, vec![DotPos(0, 0)]);
    assert_eq!(space, vec![vec![1u8]]);
}

#[test]
fn matcher_prefers_the_earliest_template_and_anchor() {
    // A fully empty grid of a three-by-three logical board is resolved by
    // the most important template (the free 3x3 block) at the first anchor.
    let space = empty_space(5, 5);
    let patterns = create_patterns();
    let bordered = add_border(&space, 1);
    assert_eq!(find_first_match(&bordered, &patterns), Some((0, 0, 0)));

    // On the smaller empty board only the free 2x2 block fits.
    let space = empty_space(3, 3);
    let bordered = add_border(&space, 1);
    assert_eq!(find_first_match(&bordered, &patterns), Some((0, 0, 15)));
}

#[test]
fn enclosed_pair_is_matched_by_the_pair_template() {
    // A fully enclosed run of three empty cells along the first axis is the
    // shape of the two-cell vertical template and of nothing earlier.
    let space = full_space_with_holes(5, 5, &[(1, 2), (2, 2), (3, 2)]);
    let patterns = create_patterns();
    let bordered = add_border(&space, 1);
    assert_eq!(find_first_match(&bordered, &patterns), Some((1, 2, 19)));
}

#[test]
fn rounded_sqrt_rounds_to_nearest() {
    assert_eq!(rounded_sqrt(0), 0);
    assert_eq!(rounded_sqrt(1), 1);
    assert_eq!(rounded_sqrt(2), 1);
    assert_eq!(rounded_sqrt(3), 2);
    assert_eq!(rounded_sqrt(10), 3);
    assert_eq!(rounded_sqrt(12), 3);
    assert_eq!(rounded_sqrt(13), 4);
    assert_eq!(rounded_sqrt(16), 4);
    assert_eq!(rounded_sqrt(100), 10);
}
