use rusty_life::cell_array::CellArray;
use rusty_life::life_api::Board;

fn array(rows: Vec<Vec<u8>>) -> CellArray {
    CellArray::from_rows(&rows).unwrap()
}

fn stepped(rows: Vec<Vec<u8>>, generations: usize) -> CellArray {
    let mut board = Board::from(array(rows));
    for _ in 0..generations {
        board.update();
    }
    board.get_array()
}

#[test]
fn test_new() {
    let size = (9, 5);
    let board = Board::new(&size);

    assert_eq!(board.get_array(), array(vec![vec![0; 5]; 9]));
}

#[test]
fn test_from() {
    let arr = array(vec![
        vec![1, 0, 0, 0, 0, 0],
        vec![0, 0, 0, 0, 1, 1],
        vec![0, 0, 1, 0, 1, 0],
        vec![0, 1, 1, 1, 0, 0],
        vec![0, 0, 1, 0, 0, 0],
        vec![0, 0, 0, 0, 0, 0],
    ]);

    let board = Board::from(arr.clone());

    assert_eq!(board.get_array(), arr);
}

#[test]
fn test_update() {
    let arr = array(vec![
        vec![1, 0, 0, 0, 0, 0],
        vec![0, 0, 0, 0, 1, 1],
        vec![0, 0, 1, 0, 1, 0],
        vec![0, 1, 1, 1, 0, 0],
        vec![0, 0, 1, 0, 0, 0],
        vec![0, 0, 0, 0, 0, 0],
    ]);

    let mut board = Board::from(arr);
    board.update();

    let attempted_array = array(vec![
        vec![0, 0, 0, 0, 0, 0],
        vec![0, 0, 0, 1, 1, 1],
        vec![0, 1, 1, 0, 1, 1],
        vec![0, 1, 0, 0, 0, 0],
        vec![0, 1, 1, 1, 0, 0],
        vec![0, 0, 0, 0, 0, 0],
    ]);

    assert_eq!(board.get_array(), attempted_array);
}

#[test]
fn new_board_has_the_requested_shape() {
    assert_eq!(Board::new(&(9, 5)).dim(), (9, 5));
    assert_eq!(Board::new(&(9, 5)).get_array().dim(), (9, 5));
    assert_eq!(Board::new(&(1, 1)).get_array(), array(vec![vec![0]]));
}

#[test]
fn new_board_may_be_empty() {
    assert_eq!(Board::new(&(0, 0)).dim(), (0, 0));
    assert_eq!(Board::new(&(0, 0)).get_array().dim(), (0, 0));
    assert_eq!(Board::new(&(0, 7)).get_array().dim(), (0, 7));
    assert_eq!(Board::new(&(4, 0)).get_array().dim(), (4, 0));
    assert_eq!(Board::new(&(4, 0)).get_array(), array(vec![vec![]; 4]));
}

#[test]
fn from_reads_back_every_shape() {
    let shapes = vec![
        vec![vec![1]],
        vec![vec![0]],
        vec![vec![1, 0, 1]],
        vec![vec![1], vec![1], vec![0]],
        vec![vec![1, 1], vec![1, 1]],
        vec![vec![0, 1, 0, 1], vec![1, 0, 1, 0], vec![1, 1, 0, 0]],
    ];
    for rows in shapes {
        let arr = array(rows);
        let board = Board::from(arr.clone());
        assert_eq!(board.dim(), arr.dim());
        assert_eq!(board.get_array(), arr);
    }
}

#[test]
fn from_takes_arrays_without_cells() {
    let none = array(vec![]);
    assert_eq!(Board::from(none.clone()).get_array(), none);
    let wide = Board::new(&(0, 3)).get_array();
    let board = Board::from(wide.clone());
    assert_eq!(board.dim(), (0, 3));
    assert_eq!(board.get_array(), wide);
}

#[test]
fn reading_does_not_change_the_board() {
    let rows = vec![vec![0, 1, 0], vec![0, 1, 0], vec![0, 1, 0]];
    let board = Board::from(array(rows.clone()));
    let first = board.get_array();
    let second = board.get_array();
    assert_eq!(first, second);
    assert_eq!(first, array(rows));
}

#[test]
fn set_cell_then_read_shows_one_live_cell() {
    let mut board = Board::new(&(4, 5));
    board.set_cell(2, 3);
    assert_eq!(
        board.get_array(),
        array(vec![
            vec![0, 0, 0, 0, 0],
            vec![0, 0, 0, 0, 0],
            vec![0, 0, 0, 1, 0],
            vec![0, 0, 0, 0, 0],
        ])
    );
    board.clear_cell(2, 3);
    assert_eq!(board.get_array(), array(vec![vec![0; 5]; 4]));
}

#[test]
fn set_cell_reaches_the_corners() {
    let mut board = Board::new(&(2, 3));
    board.set_cell(0, 0);
    board.set_cell(0, 2);
    board.set_cell(1, 0);
    board.set_cell(1, 2);
    assert_eq!(board.get_array(), array(vec![vec![1, 0, 1], vec![1, 0, 1]]));
    board.clear_cell(0, 2);
    board.clear_cell(1, 0);
    assert_eq!(board.get_array(), array(vec![vec![1, 0, 0], vec![0, 0, 1]]));
}

#[test]
fn set_cell_twice_is_set_once() {
    let mut board = Board::new(&(2, 2));
    board.set_cell(1, 0);
    board.set_cell(1, 0);
    assert_eq!(board.get_array(), array(vec![vec![0, 0], vec![1, 0]]));
    board.clear_cell(0, 1);
    assert_eq!(board.get_array(), array(vec![vec![0, 0], vec![1, 0]]));
}

#[test]
fn dead_grid_stays_dead() {
    for size in [(0, 0), (0, 4), (3, 0), (1, 1), (1, 6), (5, 1), (7, 9)] {
        let mut board = Board::new(&size);
        board.update();
        assert_eq!(board.get_array(), Board::new(&size).get_array());
        board.update();
        assert_eq!(board.get_array(), Board::new(&size).get_array());
    }
}

#[test]
fn cell_with_three_live_neighbours_is_born() {
    let next = stepped(vec![vec![1, 1, 0], vec![1, 0, 0], vec![0, 0, 0]], 1);
    assert_eq!(next, array(vec![vec![1, 1, 0], vec![1, 1, 0], vec![0, 0, 0]]));
}

#[test]
fn live_cell_with_two_live_neighbours_survives() {
    let next = stepped(vec![vec![1, 0, 0], vec![0, 1, 0], vec![0, 0, 1]], 1);
    assert_eq!(next, array(vec![vec![0, 0, 0], vec![0, 1, 0], vec![0, 0, 0]]));
}

#[test]
fn dead_cell_with_two_live_neighbours_stays_dead() {
    let next = stepped(vec![vec![1, 0, 1], vec![0, 0, 0], vec![0, 0, 0]], 1);
    assert_eq!(next, array(vec![vec![0; 3]; 3]));
}

#[test]
fn live_cell_with_fewer_than_two_live_neighbours_dies() {
    assert_eq!(stepped(vec![vec![1]], 1), array(vec![vec![0]]));
    assert_eq!(stepped(vec![vec![1, 1]], 1), array(vec![vec![0, 0]]));
}

#[test]
fn live_cell_with_more_than_three_live_neighbours_dies() {
    let next = stepped(vec![vec![1, 1, 1], vec![1, 1, 1], vec![1, 1, 1]], 1);
    assert_eq!(next, array(vec![vec![1, 0, 1], vec![0, 0, 0], vec![1, 0, 1]]));
}

#[test]
fn neighbours_off_the_grid_count_as_dead() {
    assert_eq!(stepped(vec![vec![1, 1, 1, 1]], 1), array(vec![vec![0, 1, 1, 0]]));
    assert_eq!(stepped(vec![vec![1], vec![1], vec![1]], 1), array(vec![vec![0], vec![1], vec![0]]));
    assert_eq!(stepped(vec![vec![1, 1], vec![1, 1]], 3), array(vec![vec![1, 1], vec![1, 1]]));
}

#[test]
fn blinker_turns_in_one_step_and_back_in_two() {
    let upright = vec![vec![0, 1, 0], vec![0, 1, 0], vec![0, 1, 0]];
    let flat = vec![vec![0, 0, 0], vec![1, 1, 1], vec![0, 0, 0]];
    assert_eq!(stepped(upright.clone(), 1), array(flat.clone()));
    assert_eq!(stepped(upright.clone(), 2), array(upright));
    assert_eq!(stepped(flat.clone(), 1), stepped(flat, 3));
}

#[test]
fn glider_moves_one_cell_in_four_steps() {
    let glider = vec![
        vec![0, 1, 0, 0, 0],
        vec![0, 0, 1, 0, 0],
        vec![1, 1, 1, 0, 0],
        vec![0, 0, 0, 0, 0],
        vec![0, 0, 0, 0, 0],
    ];
    assert_eq!(
        stepped(glider.clone(), 1),
        array(vec![
            vec![0, 0, 0, 0, 0],
            vec![1, 0, 1, 0, 0],
            vec![0, 1, 1, 0, 0],
            vec![0, 1, 0, 0, 0],
            vec![0, 0, 0, 0, 0],
        ])
    );
    assert_eq!(
        stepped(glider, 4),
        array(vec![
            vec![0, 0, 0, 0, 0],
            vec![0, 0, 1, 0, 0],
            vec![0, 0, 0, 1, 0],
            vec![0, 1, 1, 1, 0],
            vec![0, 0, 0, 0, 0],
        ])
    );
}

#[test]
fn second_generation_follows_from_the_first() {
    let rows = vec![
        vec![1, 0, 0, 0, 0, 0],
        vec![0, 0, 0, 0, 1, 1],
        vec![0, 0, 1, 0, 1, 0],
        vec![0, 1, 1, 1, 0, 0],
        vec![0, 0, 1, 0, 0, 0],
        vec![0, 0, 0, 0, 0, 0],
    ];
    assert_eq!(
        stepped(rows, 2),
        array(vec![
            vec![0, 0, 0, 0, 1, 0],
            vec![0, 0, 1, 1, 0, 1],
            vec![0, 1, 1, 0, 0, 1],
            vec![1, 0, 0, 0, 1, 0],
            vec![0, 1, 1, 0, 0, 0],
            vec![0, 0, 1, 0, 0, 0],
        ])
    );
}

#[test]
fn update_after_an_edit_counts_the_new_cell() {
    let mut board = Board::from(array(vec![vec![0, 1, 0], vec![0, 0, 0], vec![0, 1, 0]]));
    board.set_cell(1, 1);
    board.update();
    assert_eq!(board.get_array(), array(vec![vec![0, 0, 0], vec![1, 1, 1], vec![0, 0, 0]]));
    board.clear_cell(1, 1);
    board.update();
    assert_eq!(board.get_array(), array(vec![vec![0; 3]; 3]));
}

#[test]
fn update_keeps_the_shape() {
    let mut board = Board::from(array(vec![vec![1, 1, 1, 1, 1], vec![1, 1, 1, 1, 1]]));
    board.update();
    assert_eq!(board.dim(), (2, 5));
    assert_eq!(board.get_array(), array(vec![vec![1, 0, 0, 0, 1], vec![1, 0, 0, 0, 1]]));
}

#[test]
fn can_hold_tells_the_largest_board() {
    assert!(Board::can_hold(&(0, 0)));
    assert!(Board::can_hold(&(9, 5)));
    assert!(Board::can_hold(&(1000, 1000)));
    let most = (isize::MAX as usize) / 2 - 2;
    assert!(Board::can_hold(&(0, most)));
    assert!(Board::can_hold(&(most, 0)));
    assert!(!Board::can_hold(&(0, most + 1)));
    assert!(!Board::can_hold(&(most + 1, 0)));
    assert!(!Board::can_hold(&(1, most)));
    assert!(!Board::can_hold(&(usize::MAX, 0)));
    assert!(!Board::can_hold(&(0, usize::MAX - 1)));
    assert!(!Board::can_hold(&(usize::MAX, usize::MAX)));
    assert!(!Board::can_hold(&(1 << 40, 1 << 40)));
}
