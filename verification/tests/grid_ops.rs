use galaxygen::DotPos;
use galaxygen::DotSpace;
use galaxygen::space::add_border;
use galaxygen::space::count_empty_spots;
use galaxygen::space::filler_line;
use galaxygen::space::mark_as_occupied;
use galaxygen::weight::calculate_neighbor_weight;
use galaxygen::weight::get_random_dot_candidates;

fn empty_space(x: usize, y: usize) -> DotSpace {
    let mut space: DotSpace = Vec::new();
    for _ in 0..x {
        space.push(filler_line(y, 0));
    }
    space
}

#[test]
fn border_wraps_grid_in_filler() {
    let mut space = empty_space(2, 2);
    space[0][1] = 1;
    space[1][0] = 2;
    let bordered = add_border(&space, 1);
    let expected: Vec<Vec<u8>> = vec![
        vec![1, 1, 1, 1],
        vec![1, 0, 1, 1],
        vec![1, 2, 0, 1],
        vec![1, 1, 1, 1],
    ];
    assert_eq!(bordered, expected);
    // The input grid is untouched.
    assert_eq!(space, vec![vec![0, 1], vec![2, 0]]);
}

#[test]
fn marking_even_dot_covers_one_cell_ring() {
    let mut space = empty_space(5, 5);
    mark_as_occupied(&mut space, &DotPos(2, 2), 1);
    for x in 0..5 {
        for y in 0..5 {
            let in_zone = (1..=3).contains(&x) && (1..=3).contains(&y);
            assert_eq!(space[x][y], if in_zone { 1 } else { 0 });
        }
    }
}

#[test]
fn marking_odd_dot_covers_two_cell_ring() {
    let mut space = empty_space(5, 5);
    mark_as_occupied(&mut space, &DotPos(1, 1), 1);
    for x in 0..5 {
        for y in 0..5 {
            let in_zone = x <= 3 && y <= 3;
            assert_eq!(space[x][y], if in_zone { 1 } else { 0 });
        }
    }
}

#[test]
fn marking_never_downgrades_markers() {
    let mut space = empty_space(3, 3);
    space[1][1] = 2;
    space[0][0] = 1;
    mark_as_occupied(&mut space, &DotPos(0, 0), 1);
    assert_eq!(space[1][1], 2);
    assert_eq!(space[0][0], 1);
    assert_eq!(space[0][1], 1);
    assert_eq!(space[1][0], 1);
    assert_eq!(space[2][2], 0);
}

#[test]
fn marking_out_of_range_offsets_are_skipped() {
    let mut space = empty_space(2, 2);
    mark_as_occupied(&mut space, &DotPos(0, 0), 1);
    assert_eq!(space, vec![vec![1, 1], vec![1, 1]]);
}

#[test]
fn successive_markings_write_disjoint_cells() {
    let mut space = empty_space(5, 5);
    mark_as_occupied(&mut space, &DotPos(0, 0), 1);
    let first: Vec<(usize, usize)> = (0..5)
        .flat_map(|x| (0..5).map(move |y| (x, y)))
        .filter(|&(x, y)| space[x][y] != 0)
        .collect();
    let before_second = space.clone();
    mark_as_occupied(&mut space, &DotPos(2, 0), 1);
    let second: Vec<(usize, usize)> = (0..5)
        .flat_map(|x| (0..5).map(move |y| (x, y)))
        .filter(|&(x, y)| space[x][y] != before_second[x][y])
        .collect();
    assert!(!first.is_empty());
    assert!(!second.is_empty());
    for cell in &second {
        assert!(!first.contains(cell));
    }
}

#[test]
fn counting_empty_spots() {
    let mut space = empty_space(3, 3);
    assert_eq!(count_empty_spots(&space), 9);
    space[0][0] = 1;
    space[1][2] = 2;
    space[2][2] = 3;
    assert_eq!(count_empty_spots(&space), 6);
}

#[test]
fn clear_cell_has_weight_zero() {
    let space = empty_space(7, 7);
    assert_eq!(calculate_neighbor_weight(&space, 3, 3, 7, 7, 3), 0);
}

#[test]
fn occupied_ring_cell_gives_weight_one() {
    let mut space = empty_space(7, 7);
    space[3][2] = 1;
    assert_eq!(calculate_neighbor_weight(&space, 3, 3, 7, 7, 3), 1);
    // The growth marker does not obstruct.
    space[3][2] = 2;
    assert_eq!(calculate_neighbor_weight(&space, 3, 3, 7, 7, 3), 0);
}

#[test]
fn rightmost_diamond_cell_is_probed() {
    // The cell at full column offset `+i` belongs to the ring too.
    let mut space = empty_space(3, 3);
    space[2][1] = 1;
    assert_eq!(calculate_neighbor_weight(&space, 1, 1, 3, 3, 2), 1);
    let mut space = empty_space(7, 7);
    space[4][3] = 1;
    assert_eq!(calculate_neighbor_weight(&space, 3, 3, 7, 7, 2), 1);
    space[4][3] = 0;
    space[5][3] = 1;
    assert_eq!(calculate_neighbor_weight(&space, 3, 3, 7, 7, 2), 0);
    assert_eq!(calculate_neighbor_weight(&space, 3, 3, 7, 7, 3), 1);
}

#[test]
fn out_of_bounds_ring_cell_gives_weight_one() {
    let space = empty_space(7, 7);
    assert_eq!(calculate_neighbor_weight(&space, 0, 3, 7, 7, 2), 1);
    assert_eq!(calculate_neighbor_weight(&space, 3, 0, 7, 7, 2), 1);
}

#[test]
fn weight_with_span_below_two_is_always_zero() {
    let mut space = empty_space(3, 3);
    space[0][1] = 1;
    space[1][0] = 1;
    assert_eq!(calculate_neighbor_weight(&space, 0, 0, 3, 3, 1), 0);
    assert_eq!(calculate_neighbor_weight(&space, 0, 0, 3, 3, 0), 0);
}

#[test]
fn candidates_are_clear_empty_cells_in_row_major_order() {
    let mut space = empty_space(3, 3);
    space[1][1] = 1;
    // At distance 2 every cell is either occupied or near the occupied cell
    // or the boundary.
    assert_eq!(get_random_dot_candidates(&space, 2), Vec::<DotPos>::new());
    // At distance 1 the ring walk is empty, so every empty cell qualifies.
    let all_empty = get_random_dot_candidates(&space, 1);
    let expected = vec![
        DotPos(0, 0),
        DotPos(0, 1),
        DotPos(0, 2),
        DotPos(1, 0),
        DotPos(1, 2),
        DotPos(2, 0),
        DotPos(2, 1),
        DotPos(2, 2),
    ];
    assert_eq!(all_empty, expected);
}

#[test]
fn candidates_prefer_open_space() {
    let mut space = empty_space(7, 7);
    space[0][0] = 1;
    let open = get_random_dot_candidates(&space, 2);
    assert!(open.contains(&DotPos(3, 3)));
    assert!(!open.contains(&DotPos(1, 0)));
    assert!(!open.contains(&DotPos(0, 1)));
    assert!(!open.contains(&DotPos(6, 6)));
}
