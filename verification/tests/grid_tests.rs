use game_of_life::grid::{Board, Cell, GridError, Point};

/// Collects the coordinates of every live cell, row-major.
fn live_cells(board: &Board) -> Vec<(i16, i16)> {
    let mut live: Vec<(i16, i16)> = Vec::new();
    for r in 0..board.height as i16 {
        for c in 0..board.width as i16 {
            if let Ok(Cell::Live(_)) = board.at(&Point(r, c)) {
                live.push((r, c));
            }
        }
    }
    live
}

#[test]
fn neighbors_test() {
    let empty_board = Board::new(1, 1).unwrap();
    let cells = empty_board.neighbor_points(&Point(0, 0));
    assert_eq!(cells.len(), 0);

    let board = Board::new(3, 3).unwrap();
    let cells = board.neighbor_points(&Point(0, 0));
    assert_eq!(cells.len(), 3);
    assert!(cells.contains(&Point(0, 1)));
    assert!(!cells.contains(&Point(1, 2)));
}

#[test]
fn cell_tests() {
    let mut board = Board::new(3, 3).unwrap();
    board.revive(Point(0, 0)).unwrap();
    assert!(matches!(board.map[0][0], Cell::Live(_)));
    assert!(!matches!(board.map[0][1], Cell::Live(_)));
    assert!(matches!(board.map[0][1], Cell::Dead(_)));

    assert_eq!(board.living_neighbors(&Point(0, 0)), 0);
    assert_eq!(board.living_neighbors(&Point(0, 1)), 1);
    board.revive(Point(0, 0)).unwrap();
    assert_eq!(board.living_neighbors(&Point(0, 1)), 1);
    board.revive(Point(0, 1)).unwrap();
    assert_eq!(board.living_neighbors(&Point(0, 1)), 1);
    board.revive(Point(1, 1)).unwrap();
    assert_eq!(board.living_neighbors(&Point(0, 1)), 2);
}

#[test]
fn step_tests() {
    let mut board = Board::new(3, 3).unwrap();
    board.revive(Point(0, 0)).unwrap();
    board.revive(Point(1, 1)).unwrap();
    board.revive(Point(2, 0)).unwrap();
    board.revive(Point(2, 2)).unwrap();

    board.step();

    assert!(matches!(board.map[1][0], Cell::Live(_)));
    assert!(matches!(board.map[1][1], Cell::Live(_)));
    assert!(matches!(board.map[2][1], Cell::Live(_)));

    board.step();

    assert!(matches!(board.map[1][0], Cell::Live(_)));
    assert!(matches!(board.map[1][1], Cell::Live(_)));
    assert!(matches!(board.map[2][1], Cell::Live(_)));
    assert!(matches!(board.map[2][0], Cell::Live(_)));
}

#[test]
fn neighbor_counts_by_position() {
    let board = Board::new(4, 4).unwrap();
    // interior: all eight Moore neighbors are on the board
    assert_eq!(board.neighbor_points(&Point(1, 1)).len(), 8);
    assert_eq!(board.neighbor_points(&Point(2, 2)).len(), 8);
    // corners: three
    assert_eq!(board.neighbor_points(&Point(0, 0)).len(), 3);
    assert_eq!(board.neighbor_points(&Point(0, 3)).len(), 3);
    assert_eq!(board.neighbor_points(&Point(3, 0)).len(), 3);
    assert_eq!(board.neighbor_points(&Point(3, 3)).len(), 3);
    // non-corner edge cells: five
    assert_eq!(board.neighbor_points(&Point(0, 1)).len(), 5);
    assert_eq!(board.neighbor_points(&Point(1, 0)).len(), 5);
    assert_eq!(board.neighbor_points(&Point(3, 2)).len(), 5);
    assert_eq!(board.neighbor_points(&Point(2, 3)).len(), 5);
}

#[test]
fn living_count_matches_neighbor_list() {
    let mut board = Board::new(3, 3).unwrap();
    board.revive(Point(0, 0)).unwrap();
    board.revive(Point(0, 2)).unwrap();
    board.revive(Point(2, 2)).unwrap();
    for r in 0..3i16 {
        for c in 0..3i16 {
            let p = Point(r, c);
            let neighbors = board.neighbor_points(&p);
            let mut manual = 0u8;
            for q in &neighbors {
                if let Ok(Cell::Live(_)) = board.at(q) {
                    manual += 1;
                }
            }
            let counted = board.living_neighbors(&p);
            assert_eq!(counted, manual);
            assert!((counted as usize) <= neighbors.len());
        }
    }
    // one exact value: the center sees all three live cells
    assert_eq!(board.living_neighbors(&Point(1, 1)), 3);
}

#[test]
fn empty_board_stays_empty() {
    let mut board = Board::new(3, 3).unwrap();
    assert_eq!(live_cells(&board), vec![]);
    board.step();
    assert_eq!(live_cells(&board), vec![]);
}

#[test]
fn block_still_life() {
    let mut board = Board::new(4, 4).unwrap();
    board.revive(Point(1, 1)).unwrap();
    board.revive(Point(1, 2)).unwrap();
    board.revive(Point(2, 1)).unwrap();
    board.revive(Point(2, 2)).unwrap();
    board.step();
    assert_eq!(live_cells(&board), vec![(1, 1), (1, 2), (2, 1), (2, 2)]);
}

#[test]
fn known_pattern_two_steps() {
    let mut board = Board::new(3, 3).unwrap();
    board.revive(Point(0, 0)).unwrap();
    board.revive(Point(1, 1)).unwrap();
    board.revive(Point(2, 0)).unwrap();
    board.revive(Point(2, 2)).unwrap();

    board.step();
    assert_eq!(live_cells(&board), vec![(1, 0), (1, 1), (2, 1)]);

    board.step();
    assert_eq!(live_cells(&board), vec![(1, 0), (1, 1), (2, 0), (2, 1)]);
}

#[test]
fn two_phase_regression() {
    // A vertical blinker: (1, 0) is dead with exactly three live neighbors.
    // A naive in-place scan would have killed (0, 1) before counting for
    // (1, 0), seen only two live neighbors, and left (1, 0) dead.
    let mut board = Board::new(3, 3).unwrap();
    board.revive(Point(0, 1)).unwrap();
    board.revive(Point(1, 1)).unwrap();
    board.revive(Point(2, 1)).unwrap();
    board.step();
    assert!(matches!(board.map[1][0], Cell::Live(_)));
    assert_eq!(live_cells(&board), vec![(1, 0), (1, 1), (1, 2)]);
}

#[test]
fn out_of_bounds_errors() {
    let mut board = Board::new(3, 3).unwrap();
    assert_eq!(board.revive(Point(3, 0)), Err(GridError::OutOfBounds));
    assert_eq!(board.at(&Point(3, 0)).unwrap_err(), GridError::OutOfBounds);
    assert_eq!(board.revive(Point(0, 3)), Err(GridError::OutOfBounds));
    assert_eq!(board.at(&Point(0, 3)).unwrap_err(), GridError::OutOfBounds);
    assert_eq!(board.revive(Point(-1, 0)), Err(GridError::OutOfBounds));
    assert_eq!(board.at(&Point(-1, 0)).unwrap_err(), GridError::OutOfBounds);
    // a rejected revive leaves the board unchanged
    assert_eq!(live_cells(&board), vec![]);
}

#[test]
fn invalid_dimensions_errors() {
    assert_eq!(Board::new(0, 3).unwrap_err(), GridError::InvalidDimensions);
    assert_eq!(Board::new(3, 0).unwrap_err(), GridError::InvalidDimensions);
    assert_eq!(Board::new(0, 0).unwrap_err(), GridError::InvalidDimensions);
    let board = Board::new(1, 1).unwrap();
    assert_eq!(board.height, 1);
    assert_eq!(board.width, 1);
    assert_eq!(live_cells(&board), vec![]);
}

#[test]
fn at_reads_what_revive_wrote() {
    let mut board = Board::new(2, 2).unwrap();
    board.revive(Point(1, 0)).unwrap();
    assert!(matches!(board.at(&Point(1, 0)), Ok(Cell::Live(_))));
    assert!(matches!(board.at(&Point(0, 0)), Ok(Cell::Dead(_))));
}

#[test]
fn point_from_u8_keeps_coordinates() {
    assert_eq!(Point::from_u8(0, 0), Point(0, 0));
    assert_eq!(Point::from_u8(2, 3), Point(2, 3));
    assert_eq!(Point::from_u8(255, 128), Point(255, 128));
}
