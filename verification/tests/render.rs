use std::cmp::Ordering;

use galaxygen::DotPos;
use galaxygen::DotSpace;
use galaxygen::Position;
use galaxygen::dot_space;
use galaxygen::dot_space_candidates;
use galaxygen::space::filler_line;

fn empty_space(x: usize, y: usize) -> DotSpace {
    let mut space: DotSpace = Vec::new();
    for _ in 0..x {
        space.push(filler_line(y, 0));
    }
    space
}

#[test]
fn grid_dump_of_single_cell() {
    let space = empty_space(1, 1);
    assert_eq!(dot_space(&space), "\n   00 \n00  0 \n");
}

#[test]
fn grid_dump_lists_columns_then_rows() {
    let mut space = empty_space(2, 3);
    space[0][0] = 1;
    space[1][2] = 2;
    let expected = "\n   00 01 \n00  1  0 \n01  0  0 \n02  0  2 \n";
    assert_eq!(dot_space(&space), expected);
}

#[test]
fn candidate_dump_counts_votes_per_cell() {
    let space = empty_space(2, 2);
    let candidates = vec![DotPos(0, 0), DotPos(1, 1), DotPos(0, 0)];
    let expected = "\n    000 001 \n000   2   0 \n001   0   1 \n";
    assert_eq!(dot_space_candidates(&space, &candidates), expected);
}

#[test]
fn candidate_dump_with_no_candidates_is_all_zero() {
    let space = empty_space(1, 1);
    let candidates: Vec<DotPos> = Vec::new();
    assert_eq!(
        dot_space_candidates(&space, &candidates),
        "\n    000 \n000   0 \n"
    );
}

#[test]
fn dot_positions_compare_by_both_coordinates() {
    assert_eq!(DotPos(1, 2), DotPos(1, 2));
    assert_ne!(DotPos(1, 2), DotPos(2, 1));
    assert_ne!(DotPos(1, 2), DotPos(1, 3));
}

#[test]
fn positions_order_row_first() {
    assert_eq!(Position(1, 2).cmp(&Position(0, 3)), Ordering::Less);
    assert_eq!(Position(0, 3).cmp(&Position(1, 2)), Ordering::Greater);
    assert_eq!(Position(1, 2).cmp(&Position(2, 2)), Ordering::Less);
    assert_eq!(Position(2, 2).cmp(&Position(2, 2)), Ordering::Equal);
    assert!(Position(1, 2) == Position(1, 2));
    assert!(Position(1, 2) != Position(2, 2));
    assert!(Position(5, 1) < Position(0, 2));
    assert_eq!(
        Position(1, 1).partial_cmp(&Position(1, 1)),
        Some(Ordering::Equal)
    );
}
